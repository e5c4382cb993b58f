use zksvm::error::SvmError;
use zksvm::locator::artifact_url;
use zksvm::manifest::{Manifest, ManifestBuild};
use zksvm::platform::Platform;
use zksvm::releases::{BuildInfo, Releases};
use zksvm::version::Version;

fn v(text: &str) -> Version {
    Version::parse(text).unwrap()
}

fn build(version: &str, sha256: &str) -> ManifestBuild {
    ManifestBuild {
        version: version.to_string(),
        sha256: sha256.to_string(),
    }
}

fn release(version: &str, artifact: &str) -> (String, String) {
    (version.to_string(), artifact.to_string())
}

fn manifest() -> Manifest {
    Manifest {
        builds: vec![
            build("1.3.17", "0xabc0"),
            build("1.3.16", "00ff10"),
            build("1.3.17", "0xffff"),
        ],
        releases: vec![
            release("1.3.17", "zksolc-linux-amd64-v1.3.17"),
            release("1.3.13", "zksolc-linux-amd64-v1.3.13"),
            release("1.4.0-rc.1", "zksolc-linux-amd64-v1.4.0-rc.1"),
            release("1.3.16", "zksolc-linux-amd64-v1.3.16"),
        ],
    }
}

#[test]
fn empty_catalog_knows_nothing() {
    let catalog = Releases::new();
    assert_eq!(catalog.get_checksum(&v("1.3.17")), None);
    assert_eq!(catalog.get_artifact(&v("1.3.17")), None);
    assert!(catalog.builds().is_empty());
    assert!(catalog.entries().is_empty());
    assert_eq!(catalog.into_versions(), Vec::<Version>::new());
}

#[test]
fn checksum_is_that_of_the_first_build() {
    let catalog = Releases::from_manifest(&manifest()).unwrap();
    assert_eq!(catalog.get_checksum(&v("1.3.17")), Some(vec![0xab, 0xc0]));
    assert_eq!(catalog.get_checksum(&v("1.3.16")), Some(vec![0x00, 0xff, 0x10]));
    assert_eq!(catalog.get_checksum(&v("1.3.13")), None);
    assert_eq!(catalog.get_checksum(&v("1.3.17+b")), None);
}

#[test]
fn artifact_is_found_by_version() {
    let catalog = Releases::from_manifest(&manifest()).unwrap();
    assert_eq!(
        catalog.get_artifact(&v("1.3.17")),
        Some(&"zksolc-linux-amd64-v1.3.17".to_string())
    );
    assert_eq!(
        catalog.get_artifact(&v("1.4.0-rc.1")),
        Some(&"zksolc-linux-amd64-v1.4.0-rc.1".to_string())
    );
    assert_eq!(catalog.get_artifact(&v("1.4.0")), None);
}

#[test]
fn insert_replaces_the_name_of_a_version() {
    let mut catalog = Releases::new();
    catalog.insert(v("1.3.17"), "first".to_string());
    catalog.insert(v("1.3.16"), "other".to_string());
    catalog.insert(v("1.3.17"), "second".to_string());
    assert_eq!(catalog.get_artifact(&v("1.3.17")), Some(&"second".to_string()));
    assert_eq!(catalog.get_artifact(&v("1.3.16")), Some(&"other".to_string()));
    assert_eq!(catalog.entries().len(), 2);
    assert_eq!(catalog.into_versions(), vec![v("1.3.16"), v("1.3.17")]);
}

#[test]
fn push_build_keeps_the_order() {
    let mut catalog = Releases::new();
    catalog.push_build(BuildInfo {
        version: v("1.3.17"),
        sha256: vec![1],
    });
    catalog.push_build(BuildInfo {
        version: v("1.3.17"),
        sha256: vec![2],
    });
    assert_eq!(catalog.builds().len(), 2);
    assert_eq!(catalog.builds()[1].sha256, vec![2]);
    assert_eq!(catalog.get_checksum(&v("1.3.17")), Some(vec![1]));
    assert_eq!(catalog.builds()[0].clone().version, v("1.3.17"));
}

#[test]
fn versions_come_out_sorted() {
    let catalog = Releases::from_manifest(&manifest()).unwrap();
    assert_eq!(
        catalog.into_versions(),
        vec![v("1.3.13"), v("1.3.16"), v("1.3.17"), v("1.4.0-rc.1")]
    );
}

#[test]
fn a_later_release_entry_takes_the_place_of_an_earlier() {
    let catalog = Releases::from_manifest(&Manifest {
        builds: vec![],
        releases: vec![
            release("1.3.17", "first"),
            release("1.3.16", "other"),
            release("1.3.17", "second"),
        ],
    })
    .unwrap();
    assert_eq!(catalog.get_artifact(&v("1.3.17")), Some(&"second".to_string()));
    assert_eq!(catalog.into_versions(), vec![v("1.3.16"), v("1.3.17")]);
}

#[test]
fn a_manifest_with_a_bad_entry_gives_no_catalog() {
    let mut bad = manifest();
    bad.builds[1].sha256 = "0xabc".to_string();
    assert_eq!(
        Releases::from_manifest(&bad).unwrap_err(),
        SvmError::CatalogParse("0xabc".to_string())
    );
    let mut bad = manifest();
    bad.builds[2].version = "1.3".to_string();
    assert_eq!(
        Releases::from_manifest(&bad).unwrap_err(),
        SvmError::CatalogParse("1.3".to_string())
    );
    let mut bad = manifest();
    bad.releases[3].0 = "latest".to_string();
    assert_eq!(
        Releases::from_manifest(&bad).unwrap_err(),
        SvmError::CatalogParse("latest".to_string())
    );
    let mut bad = manifest();
    bad.releases[0].0 = "one".to_string();
    bad.builds[0].sha256 = "xyz".to_string();
    bad.builds[0].version = "two".to_string();
    assert_eq!(
        Releases::from_manifest(&bad).unwrap_err(),
        SvmError::CatalogParse("two".to_string())
    );
}

#[test]
fn a_catalog_survives_its_manifest() {
    let catalog = Releases::from_manifest(&manifest()).unwrap();
    let written = catalog.to_manifest();
    assert_eq!(
        written.builds,
        vec![
            build("1.3.17", "0xabc0"),
            build("1.3.16", "0x00ff10"),
            build("1.3.17", "0xffff"),
        ]
    );
    assert_eq!(written.releases.len(), 4);
    for entry in manifest().releases {
        assert!(written.releases.contains(&entry));
    }
    let read = Releases::from_manifest(&written).unwrap();
    assert_eq!(read, catalog);
    assert!(read.same(&catalog));
    assert_eq!(read.to_manifest(), written);
    assert_eq!(read.builds().len(), catalog.builds().len());
    for (a, b) in read.builds().iter().zip(catalog.builds().iter()) {
        assert_eq!(a.version, b.version);
        assert_eq!(a.sha256, b.sha256);
    }
    for (version, artifact) in catalog.entries() {
        assert_eq!(read.get_artifact(version), Some(artifact));
    }
    assert_eq!(read.entries().len(), catalog.entries().len());
}

#[test]
fn every_checksum_survives() {
    let mut catalog = Releases::new();
    let all: Vec<u8> = (0..=255).collect();
    catalog.push_build(BuildInfo {
        version: v("1.3.17"),
        sha256: all.clone(),
    });
    catalog.push_build(BuildInfo {
        version: v("1.3.16"),
        sha256: vec![],
    });
    let read = Releases::from_manifest(&catalog.to_manifest()).unwrap();
    assert_eq!(read.get_checksum(&v("1.3.17")), Some(all));
    assert_eq!(read.get_checksum(&v("1.3.16")), Some(vec![]));
}

#[test]
fn catalog_entry_gives_the_url() {
    let catalog = Releases::from_manifest(&Manifest {
        builds: vec![build("1.3.17", "0xabc0")],
        releases: vec![release("1.3.17", "zksolc-linux-amd64-v1.3.17")],
    })
    .unwrap();
    let version = v("1.3.17");
    let artifact = catalog.get_artifact(&version).unwrap();
    assert_eq!(
        artifact_url(Platform::LinuxAmd64, &version, artifact).unwrap(),
        "https://github.com/dutterbutter/zksolc-bin/raw/db/generate-list/linux-amd64/zksolc-linux-amd64-v1.3.17"
    );
}

#[test]
fn catalogs_are_equal_whatever_the_order_of_their_releases() {
    let mut a = Releases::new();
    a.insert(v("1.3.17"), "x".to_string());
    a.insert(v("1.3.16"), "y".to_string());
    a.push_build(BuildInfo {
        version: v("1.3.17"),
        sha256: vec![1, 2],
    });
    let mut b = Releases::default();
    b.insert(v("1.3.16"), "y".to_string());
    b.insert(v("1.3.17"), "x".to_string());
    b.push_build(BuildInfo {
        version: v("1.3.17"),
        sha256: vec![1, 2],
    });
    assert_eq!(a, b);
    assert_eq!(a.clone(), a);

    let mut c = b.clone();
    c.insert(v("1.3.17"), "z".to_string());
    assert_ne!(a, c);
    let mut d = b.clone();
    d.insert(v("1.3.18"), "x".to_string());
    assert_ne!(a, d);
    assert_ne!(d, a);
    let mut e = b.clone();
    e.push_build(BuildInfo {
        version: v("1.3.17"),
        sha256: vec![1, 2],
    });
    assert_ne!(a, e);
    let mut f = Releases::new();
    f.insert(v("1.3.16"), "y".to_string());
    f.insert(v("1.3.17"), "x".to_string());
    f.push_build(BuildInfo {
        version: v("1.3.17"),
        sha256: vec![1, 3],
    });
    assert_ne!(a, f);
    assert_eq!(Releases::new(), Releases::default());
}
