//! The state that is kept on disk, read from plain values: the pointer to
//! the global version, and the installed versions as the data directory shows them.
//!
//! The data directory holds one directory for each installed version, named
//! by the version, and one small file whose whole content is the global
//! version. There is no other record: what the directory shows is what is installed.

use vstd::prelude::*;
use vstd::string::*;
use crate::error::{SvmError, SvmErrorView};
use crate::version::{ascending, contains, sort, spec_parse, views, Version, VersionView};

verus! {

/// The name of the file that holds the global version.
pub fn global_version_file_name() -> (r: &'static str)
    ensures
        r@ == ".global-version"@,
{
    ".global-version"
}

/// The name of the directory in which a version is installed.
pub fn version_dir_name(version: &Version) -> (r: String)
    ensures
        r@ == version@.text(),
{
    version.to_string()
}

/// The name of a version's binary in its directory.
pub fn binary_file_name(version: &Version) -> (r: String)
    ensures
        r@ == "zksolc-"@ + version@.text(),
{
    let mut s = String::from_str("zksolc-");
    s.append(version.to_string().as_str());
    s
}

/// What is written to the pointer file to make a version the global one.
pub fn global_version_content(version: &Version) -> (r: String)
    ensures
        r@ == version@.text(),
{
    version.to_string()
}

/// What the pointer file says: nothing where there is no file, the version
/// that its content is the text of, or the content handed back as no version.
pub open spec fn spec_read_global_version(content: Option<Seq<char>>) -> Result<
    Option<VersionView>,
    SvmErrorView,
> {
    match content {
        None => Ok(None),
        Some(text) => match spec_parse(text) {
            Some(v) => Ok(Some(v)),
            None => Err(SvmErrorView::InvalidVersion(text)),
        },
    }
}

/// Reads the global version from the content of the pointer file, `None`
/// standing for a file that is not there. No file means no global version and
/// is no error. What `global_version_content` wrote for a version reads back as
/// that version.
pub fn read_global_version(content: Option<&str>) -> (r: Result<Option<Version>, SvmError>)
    ensures
        match spec_read_global_version(
            match content {
                Some(text) => Some(text@),
                None => None,
            },
        ) {
            Ok(Some(v)) => r matches Ok(Some(x)) && x@ == v,
            Ok(None) => r matches Ok(None),
            Err(e) => r matches Err(x) && x@ == e,
        },
        content matches Some(text) ==> forall|v: VersionView|
            v.valid() && text@ == #[trigger] v.text() ==> (r matches Ok(Some(x)) && x@ == v),
{
    match content {
        None => Ok(None),
        Some(text) => match Version::parse(text) {
            Ok(v) => Ok(Some(v)),
            Err(e) => Err(e),
        },
    }
}

/// Whether one of the first `n` names is the text of the version.
pub open spec fn named(names: Seq<String>, n: int, v: VersionView) -> bool {
    exists|j: int| 0 <= j < n && spec_parse(#[trigger] names[j]@) == Some(v)
}

/// The installed versions, from the names of the entries of the data
/// directory: each version that an entry is named by, once, in ascending
/// order. Entries that are not named by a version are none of them.
pub fn installed_versions(names: &Vec<String>) -> (r: Vec<Version>)
    ensures
        ascending(views(r@)),
        views(r@).no_duplicates(),
        forall|v: VersionView| views(r@).contains(v) <==> named(names@, names@.len() as int, v),
{
    let mut found: Vec<Version> = Vec::new();
    let mut i: usize = 0;
    while i < names.len()
        invariant
            i <= names.len(),
            views(found@).no_duplicates(),
            forall|v: VersionView| views(found@).contains(v) <==> named(names@, i as int, v),
        decreases names.len() - i,
    {
        let ghost before = views(found@);
        match Version::parse(names[i].as_str()) {
            Ok(version) => {
                if !contains(&found, &version) {
                    found.push(version);
                    proof {
                        assert(views(found@) =~= before.push(version@));
                    }
                }
                proof {
                    let after = views(found@);
                    assert(after.contains(version@)) by {
                        if !before.contains(version@) {
                            assert(after[after.len() - 1] == version@);
                        }
                    }
                    assert forall|v: VersionView| after.contains(v) <==> named(
                        names@,
                        i + 1,
                        v,
                    ) by {
                        if before.contains(v) {
                            let k = choose|k: int| 0 <= k < before.len() && before[k] == v;
                            assert(after[k] == v);
                        }
                    }
                }
            },
            Err(_) => {
                proof {
                    assert forall|v: VersionView| named(names@, i + 1, v) implies named(
                        names@,
                        i as int,
                        v,
                    ) by {}
                }
            },
        }
        i += 1;
    }
    sort(&mut found);
    found
}

} // verus!
