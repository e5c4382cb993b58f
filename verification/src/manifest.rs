//! A release manifest as it is published: versions and checksums as text.
//! A catalog is made from a manifest entry by entry, and is written back as one.

use vstd::prelude::*;
use vstd::string::*;
use crate::error::{SvmError, SvmErrorView};
use crate::hex_string::{
    deserialize,
    hex_bytes,
    is_hex_text,
    lemma_checksum_round_trip,
    prefixed_hex_text,
    serialize,
    spec_deserialize,
};
use crate::releases::{BuildInfo, BuildInfoView, Releases, ReleasesView};
use crate::version::{spec_parse, Version, VersionView};

verus! {

/// One entry of a manifest's `builds`: a version and its checksum in
/// hexadecimal, with or without the prefix `0x`.
#[derive(Clone, Debug, PartialEq, Eq)]
pub struct ManifestBuild {
    pub version: String,
    pub sha256: String,
}

/// A manifest: the entries of `builds` in their order, and the entries of
/// `releases`, each a version and the name of its artifact.
#[derive(Clone, Debug, PartialEq, Eq)]
pub struct Manifest {
    pub builds: Vec<ManifestBuild>,
    pub releases: Vec<(String, String)>,
}

/// A manifest as plain values.
pub struct ManifestView {
    pub builds: Seq<(Seq<char>, Seq<char>)>,
    pub releases: Seq<(Seq<char>, Seq<char>)>,
}

impl View for Manifest {
    type V = ManifestView;

    open spec fn view(&self) -> ManifestView {
        ManifestView {
            builds: self.builds@.map_values(|b: ManifestBuild| (b.version@, b.sha256@)),
            releases: self.releases@.map_values(|e: (String, String)| (e.0@, e.1@)),
        }
    }
}

/// The build record that an entry of `builds` stands for, or the text in it
/// that cannot be read: the version first, then the checksum.
pub open spec fn spec_build(entry: (Seq<char>, Seq<char>)) -> Result<BuildInfoView, SvmErrorView> {
    match spec_parse(entry.0) {
        None => Err(SvmErrorView::CatalogParse(entry.0)),
        Some(version) => if is_hex_text(entry.1) {
            Ok(BuildInfoView { version, sha256: hex_bytes(entry.1) })
        } else {
            Err(SvmErrorView::CatalogParse(entry.1))
        },
    }
}

/// The build records that the entries stand for, in their order, or the first
/// text that cannot be read.
pub open spec fn spec_builds(entries: Seq<(Seq<char>, Seq<char>)>) -> Result<
    Seq<BuildInfoView>,
    SvmErrorView,
>
    decreases entries.len(),
{
    if entries.len() == 0 {
        Ok(Seq::empty())
    } else {
        match spec_builds(entries.drop_last()) {
            Err(e) => Err(e),
            Ok(done) => match spec_build(entries.last()) {
                Err(e) => Err(e),
                Ok(build) => Ok(done.push(build)),
            },
        }
    }
}

/// The mapping that the entries of `releases` stand for, a later entry of a
/// version taking the place of an earlier one, or the first text that is no version.
pub open spec fn spec_releases(entries: Seq<(Seq<char>, Seq<char>)>) -> Result<
    Map<VersionView, Seq<char>>,
    SvmErrorView,
>
    decreases entries.len(),
{
    if entries.len() == 0 {
        Ok(Map::empty())
    } else {
        match spec_releases(entries.drop_last()) {
            Err(e) => Err(e),
            Ok(done) => match spec_parse(entries.last().0) {
                None => Err(SvmErrorView::CatalogParse(entries.last().0)),
                Some(version) => Ok(done.insert(version, entries.last().1)),
            },
        }
    }
}

/// The catalog that a manifest stands for. Nothing of a manifest is taken
/// where any of it cannot be read: the build records are read first.
pub open spec fn spec_catalog(m: ManifestView) -> Result<ReleasesView, SvmErrorView> {
    match spec_builds(m.builds) {
        Err(e) => Err(e),
        Ok(builds) => match spec_releases(m.releases) {
            Err(e) => Err(e),
            Ok(releases) => Ok(ReleasesView { builds, releases }),
        },
    }
}

/// Whether the entries write the build records down, one for one.
pub open spec fn lists_builds(entries: Seq<(Seq<char>, Seq<char>)>, builds: Seq<BuildInfoView>)
    -> bool {
    &&& entries.len() == builds.len()
    &&& forall|i: int|
        0 <= i < entries.len() ==> (#[trigger] builds[i]).version.valid() && entries[i] == (
            builds[i].version.text(),
            prefixed_hex_text(builds[i].sha256),
        )
}

/// Whether the entry writes one of the mapping's releases down.
pub open spec fn is_release_of(entry: (Seq<char>, Seq<char>), releases: Map<VersionView, Seq<char>>)
    -> bool {
    exists|v: VersionView| releases.dom().contains(v) && entry == (#[trigger] v.text(), releases[v])
}

/// Whether one of the entries writes the version's release down.
pub open spec fn has_entry(
    entries: Seq<(Seq<char>, Seq<char>)>,
    v: VersionView,
    releases: Map<VersionView, Seq<char>>,
) -> bool {
    exists|i: int| 0 <= i < entries.len() && #[trigger] entries[i] == (v.text(), releases[v])
}

/// Whether the entries write the mapping down: each entry is one of the
/// mapping, and each of the mapping has an entry.
pub open spec fn lists_releases(
    entries: Seq<(Seq<char>, Seq<char>)>,
    releases: Map<VersionView, Seq<char>>,
) -> bool {
    &&& forall|v: VersionView| #[trigger] releases.dom().contains(v) ==> v.valid()
    &&& forall|i: int| 0 <= i < entries.len() ==> is_release_of(#[trigger] entries[i], releases)
    &&& forall|v: VersionView| #[trigger]
        releases.dom().contains(v) ==> has_entry(entries, v, releases)
}

/// Whether a manifest writes a catalog down.
pub open spec fn lists(m: ManifestView, c: ReleasesView) -> bool {
    lists_builds(m.builds, c.builds) && lists_releases(m.releases, c.releases)
}

/// Whether at most one version is written as the text.
pub open spec fn read_one_way(text: Seq<char>) -> bool {
    forall|v: VersionView| v.valid() && #[trigger] v.text() == text ==> spec_parse(text) == Some(v)
}

/// Entries that write build records down stand for these records.
proof fn lemma_builds_read_back(entries: Seq<(Seq<char>, Seq<char>)>, builds: Seq<BuildInfoView>)
    requires
        lists_builds(entries, builds),
        forall|i: int| 0 <= i < entries.len() ==> read_one_way((#[trigger] entries[i]).0),
    ensures
        spec_builds(entries) == Ok::<Seq<BuildInfoView>, SvmErrorView>(builds),
    decreases entries.len(),
{
    if entries.len() == 0 {
        assert(builds =~= Seq::empty());
    } else {
        let n = entries.len() - 1;
        assert forall|i: int| 0 <= i < n implies (#[trigger] builds.drop_last()[i]).version.valid()
            && entries.drop_last()[i] == (
            builds.drop_last()[i].version.text(),
            prefixed_hex_text(builds.drop_last()[i].sha256),
        ) by {}
        assert forall|i: int| 0 <= i < n implies read_one_way(
            (#[trigger] entries.drop_last()[i]).0,
        ) by {}
        lemma_builds_read_back(entries.drop_last(), builds.drop_last());
        let b = builds[n];
        lemma_checksum_round_trip(b.sha256);
        assert(builds.drop_last().push(b) =~= builds);
    }
}

/// What the first `n` entries stand for, where the entries write a mapping
/// down: the part of the mapping that they write.
proof fn lemma_releases_read_back(
    entries: Seq<(Seq<char>, Seq<char>)>,
    releases: Map<VersionView, Seq<char>>,
    n: int,
)
    requires
        0 <= n <= entries.len(),
        forall|v: VersionView| #[trigger] releases.dom().contains(v) ==> v.valid(),
        forall|i: int| 0 <= i < entries.len() ==> is_release_of(#[trigger] entries[i], releases),
        forall|i: int| 0 <= i < entries.len() ==> read_one_way((#[trigger] entries[i]).0),
    ensures
        spec_releases(entries.take(n)) matches Ok(m) && {
            &&& forall|v: VersionView| #[trigger]
                m.dom().contains(v) <==> releases.dom().contains(v) && exists|i: int|
                    0 <= i < n && (#[trigger] entries[i]).0 == v.text()
            &&& forall|v: VersionView| #[trigger] m.dom().contains(v) ==> m[v] == releases[v]
        },
    decreases n,
{
    if n > 0 {
        lemma_releases_read_back(entries, releases, n - 1);
        assert(entries.take(n).drop_last() =~= entries.take(n - 1));
        let e = entries[n - 1];
        let before = spec_releases(entries.take(n - 1))->Ok_0;
        let w = choose|v: VersionView|
            releases.dom().contains(v) && e == (#[trigger] v.text(), releases[v]);
        let after = before.insert(w, e.1);
        assert forall|v: VersionView| #[trigger]
            after.dom().contains(v) <==> releases.dom().contains(v) && exists|i: int|
                0 <= i < n && (#[trigger] entries[i]).0 == v.text() by {}
        assert forall|v: VersionView| #[trigger] after.dom().contains(v) implies after[v]
            == releases[v] by {}
    }
}

/// A manifest that writes a catalog down stands for that catalog, if no two
/// versions are written as the same text.
proof fn lemma_catalog_reads_back(m: ManifestView, c: ReleasesView)
    requires
        lists(m, c),
        forall|i: int| 0 <= i < m.builds.len() ==> read_one_way((#[trigger] m.builds[i]).0),
        forall|i: int| 0 <= i < m.releases.len() ==> read_one_way((#[trigger] m.releases[i]).0),
    ensures
        spec_catalog(m) == Ok::<ReleasesView, SvmErrorView>(c),
{
    lemma_builds_read_back(m.builds, c.builds);
    lemma_releases_read_back(m.releases, c.releases, m.releases.len() as int);
    assert(m.releases.take(m.releases.len() as int) =~= m.releases);
    let got = spec_releases(m.releases)->Ok_0;
    assert forall|v: VersionView| got.dom().contains(v) <==> c.releases.dom().contains(v) by {}
    assert(got =~= c.releases);
}

/// Reads the version of a manifest entry.
fn entry_version(text: &str) -> (r: Result<Version, SvmError>)
    ensures
        match spec_parse(text@) {
            Some(v) => r matches Ok(x) && x@ == v,
            None => r matches Err(e) && e@ == SvmErrorView::CatalogParse(text@),
        },
        read_one_way(text@),
{
    match Version::parse(text) {
        Ok(v) => Ok(v),
        Err(_) => Err(SvmError::CatalogParse(String::from_str(text))),
    }
}

impl Releases {
    /// Makes the catalog that a manifest stands for. Every version and every
    /// checksum is read before anything is returned: a manifest of which any
    /// text cannot be read gives that text as an error and no catalog. A
    /// manifest that writes a catalog down gives that catalog back, checksums
    /// byte for byte.
    pub fn from_manifest(manifest: &Manifest) -> (r: Result<Releases, SvmError>)
        ensures
            match spec_catalog(manifest@) {
                Ok(c) => r matches Ok(x) && x@ == c,
                Err(e) => r matches Err(x) && x@ == e,
            },
            forall|c: ReleasesView| #[trigger] lists(manifest@, c) ==> (r matches Ok(x) && x@ == c),
    {
        let ghost m = manifest@;
        let mut catalog = Releases::new();
        let mut i: usize = 0;
        proof {
            assert(catalog@.builds =~= Seq::empty());
        }
        while i < manifest.builds.len()
            invariant
                i <= manifest.builds.len(),
                m == manifest@,
                spec_builds(m.builds.take(i as int)) == Ok::<Seq<BuildInfoView>, SvmErrorView>(
                    catalog@.builds,
                ),
                catalog@.releases == Map::<VersionView, Seq<char>>::empty(),
                forall|j: int| 0 <= j < i ==> read_one_way((#[trigger] m.builds[j]).0),
            decreases manifest.builds.len() - i,
        {
            let entry = &manifest.builds[i];
            proof {
                assert(m.builds.take(i + 1).drop_last() =~= m.builds.take(i as int));
            }
            let version = match entry_version(entry.version.as_str()) {
                Ok(v) => v,
                Err(e) => {
                    proof {
                        lemma_builds_fail(m.builds, i + 1);
                        assert forall|c: ReleasesView| #[trigger] lists(m, c) implies false by {
                            assert(c.builds[i as int].version.valid());
                        }
                    }
                    return Err(e);
                },
            };
            let sha256 = match deserialize(entry.sha256.as_str()) {
                Ok(bytes) => bytes,
                Err(e) => {
                    proof {
                        lemma_builds_fail(m.builds, i + 1);
                        assert forall|c: ReleasesView| #[trigger] lists(m, c) implies false by {
                            lemma_checksum_round_trip(c.builds[i as int].sha256);
                        }
                    }
                    return Err(e);
                },
            };
            catalog.push_build(BuildInfo { version, sha256 });
            i += 1;
        }
        proof {
            assert(m.builds.take(manifest.builds.len() as int) =~= m.builds);
        }
        let mut k: usize = 0;
        while k < manifest.releases.len()
            invariant
                k <= manifest.releases.len(),
                m == manifest@,
                spec_builds(m.builds) == Ok::<Seq<BuildInfoView>, SvmErrorView>(catalog@.builds),
                spec_releases(m.releases.take(k as int)) == Ok::<
                    Map<VersionView, Seq<char>>,
                    SvmErrorView,
                >(catalog@.releases),
                forall|j: int| 0 <= j < m.builds.len() ==> read_one_way((#[trigger] m.builds[j]).0),
                forall|j: int| 0 <= j < k ==> read_one_way((#[trigger] m.releases[j]).0),
            decreases manifest.releases.len() - k,
        {
            let entry = &manifest.releases[k];
            proof {
                assert(m.releases.take(k + 1).drop_last() =~= m.releases.take(k as int));
            }
            let version = match entry_version(entry.0.as_str()) {
                Ok(v) => v,
                Err(e) => {
                    proof {
                        lemma_releases_fail(m.releases, k + 1);
                        assert forall|c: ReleasesView| #[trigger] lists(m, c) implies false by {}
                    }
                    return Err(e);
                },
            };
            catalog.insert(version, entry.1.clone());
            k += 1;
        }
        proof {
            assert(m.releases.take(manifest.releases.len() as int) =~= m.releases);
            assert forall|c: ReleasesView| #[trigger] lists(m, c) implies catalog@ == c by {
                lemma_catalog_reads_back(m, c);
            }
        }
        Ok(catalog)
    }
}

/// Whether a manifest entry writes a build record down.
spec fn writes_build(entry: ManifestBuild, build: BuildInfoView) -> bool {
    &&& build.version.valid()
    &&& entry.version@ == build.version.text()
    &&& entry.sha256@ == prefixed_hex_text(build.sha256)
}

/// Whether a manifest entry writes a release down.
spec fn writes_release(entry: (String, String), release: (Version, String)) -> bool {
    &&& release.0@.valid()
    &&& entry.0@ == release.0@.text()
    &&& entry.1@ == release.1@
}

impl Releases {
    /// Writes the catalog down as a manifest: each version as its text, each
    /// checksum in hexadecimal behind `0x`.
    pub fn to_manifest(&self) -> (r: Manifest)
        ensures
            lists(r@, self@),
    {
        let ghost c = self@;
        let source = self.builds();
        let mut builds: Vec<ManifestBuild> = Vec::new();
        let mut i: usize = 0;
        while i < source.len()
            invariant
                i <= source.len(),
                builds.len() == i,
                source@.len() == c.builds.len(),
                forall|j: int| 0 <= j < source@.len() ==> (#[trigger] source@[j])@ == c.builds[j],
                forall|j: int| 0 <= j < i ==> writes_build(#[trigger] builds@[j], c.builds[j]),
            decreases source.len() - i,
        {
            let build = &source[i];
            proof {
                use_type_invariant(&build.version);
            }
            let version = build.version.to_string();
            let sha256 = serialize(build.sha256.as_slice());
            let entry = ManifestBuild { version, sha256 };
            builds.push(entry);
            proof {
                assert forall|j: int| 0 <= j < i + 1 implies writes_build(
                    #[trigger] builds@[j],
                    c.builds[j],
                ) by {}
            }
            i += 1;
        }
        let entries = self.entries();
        let mut releases: Vec<(String, String)> = Vec::new();
        let mut k: usize = 0;
        while k < entries.len()
            invariant
                k <= entries.len(),
                releases.len() == k,
                forall|j: int| 0 <= j < k ==> writes_release(#[trigger] releases@[j], entries@[j]),
            decreases entries.len() - k,
        {
            let release = &entries[k];
            proof {
                use_type_invariant(&release.0);
            }
            let entry = (release.0.to_string(), release.1.clone());
            releases.push(entry);
            proof {
                assert forall|j: int| 0 <= j < k + 1 implies writes_release(
                    #[trigger] releases@[j],
                    entries@[j],
                ) by {}
            }
            k += 1;
        }
        let r = Manifest { builds, releases };
        proof {
            let m = r@;
            assert forall|j: int| 0 <= j < m.builds.len() implies (
            #[trigger] c.builds[j]).version.valid() && m.builds[j] == (
                c.builds[j].version.text(),
                prefixed_hex_text(c.builds[j].sha256),
            ) by {
                assert(writes_build(builds@[j], c.builds[j]));
            }
            assert forall|v: VersionView| #[trigger] c.releases.dom().contains(v) implies v.valid()
                && has_entry(m.releases, v, c.releases) by {
                let j = choose|j: int| 0 <= j < entries@.len() && (#[trigger] entries@[j]).0@ == v;
                assert(m.releases[j] == (v.text(), c.releases[v]));
            }
            assert forall|j: int| 0 <= j < m.releases.len() implies is_release_of(
                #[trigger] m.releases[j],
                c.releases,
            ) by {}
        }
        r
    }
}

/// Entries of which a beginning cannot be read cannot be read, with the same error.
proof fn lemma_builds_fail(entries: Seq<(Seq<char>, Seq<char>)>, n: int)
    requires
        0 <= n <= entries.len(),
        spec_builds(entries.take(n)) is Err,
    ensures
        spec_builds(entries) == spec_builds(entries.take(n)),
    decreases entries.len() - n,
{
    if n == entries.len() {
        assert(entries.take(n) =~= entries);
    } else {
        assert(entries.take(n + 1).drop_last() =~= entries.take(n));
        lemma_builds_fail(entries, n + 1);
    }
}

/// Entries of which a beginning cannot be read cannot be read, with the same error.
proof fn lemma_releases_fail(entries: Seq<(Seq<char>, Seq<char>)>, n: int)
    requires
        0 <= n <= entries.len(),
        spec_releases(entries.take(n)) is Err,
    ensures
        spec_releases(entries) == spec_releases(entries.take(n)),
    decreases entries.len() - n,
{
    if n == entries.len() {
        assert(entries.take(n) =~= entries);
    } else {
        assert(entries.take(n + 1).drop_last() =~= entries.take(n));
        lemma_releases_fail(entries, n + 1);
    }
}

} // verus!
