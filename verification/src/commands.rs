//! What the commands of the version manager decide. Each command reads the
//! state, asks here what to do, and does it: prompting, installing and
//! writing are the caller's.

use vstd::prelude::*;
use vstd::string::*;
use crate::error::{SvmError, SvmErrorView};
use crate::platform::same_text;
use crate::version::{ascending, contains, sort, spec_parse, views, Version, VersionView};

verus! {

/// Installs versions.
#[derive(Clone, Debug, PartialEq, Eq)]
pub struct InstallCmd {
    /// The versions to install, as they were typed.
    pub versions: Vec<String>,
}

/// Lists the global version, the installed versions and those that can be installed.
#[derive(Clone, Copy, Debug, PartialEq, Eq)]
pub struct ListCmd;

/// Makes a version the global one.
#[derive(Clone, Debug, PartialEq, Eq)]
pub struct UseCmd {
    /// The version to use, as it was typed.
    pub version: String,
}

/// Removes a version, or all of them.
#[derive(Clone, Debug, PartialEq, Eq)]
pub struct RemoveCmd {
    /// The version to remove, as it was typed, or `all` in any case of letters.
    pub version: String,
}

/// Whether an answer to a prompt agrees: `y`, `Y`, `yes` or `Yes`.
pub open spec fn spec_is_yes(answer: Seq<char>) -> bool {
    answer == "y"@ || answer == "Y"@ || answer == "yes"@ || answer == "Yes"@
}

/// Whether an answer to a prompt agrees.
pub fn is_yes(answer: &str) -> (r: bool)
    ensures
        r == spec_is_yes(answer@),
{
    same_text(answer, "y") || same_text(answer, "Y") || same_text(answer, "yes") || same_text(
        answer,
        "Yes",
    )
}

/// What a command does with a version, by where the version is found.
#[derive(Clone, Copy, Debug, PartialEq, Eq, Structural)]
pub enum Standing {
    /// The version is installed.
    Installed,
    /// The version is not installed and is released for the platform.
    Released,
    /// The version is neither.
    Unknown,
}

/// Where a version stands: installed, or else released, or else unknown.
pub open spec fn spec_standing(v: VersionView, installed: Seq<VersionView>, all: Seq<VersionView>)
    -> Standing {
    if installed.contains(v) {
        Standing::Installed
    } else if all.contains(v) {
        Standing::Released
    } else {
        Standing::Unknown
    }
}

/// Where a version stands among the installed and the released versions.
pub fn standing(version: &Version, installed: &Vec<Version>, all: &Vec<Version>) -> (r: Standing)
    ensures
        r == spec_standing(version@, views(installed@), views(all@)),
{
    if contains(installed, version) {
        Standing::Installed
    } else if contains(all, version) {
        Standing::Released
    } else {
        Standing::Unknown
    }
}

/// Whether a version that was just installed becomes the global one: it does
/// where none was set.
pub fn becomes_global(current: &Option<Version>) -> (r: bool)
    ensures
        r == (current is None),
{
    current.is_none()
}

/// What `install` does with one of its versions.
#[derive(Debug)]
pub enum InstallCmdAction {
    /// It is installed already: ask whether to make it the global version.
    AskToSetGlobal(Version),
    /// Install it, and make it the global version if none is set.
    Install(Version),
    /// Say that it is not released for this platform.
    ReportUnsupported(Version),
}

/// What `use` does.
#[derive(Debug)]
pub enum UseCmdAction {
    /// Make it the global version.
    SetGlobal(Version),
    /// It is not installed: ask whether to install it.
    AskToInstall(Version),
    /// Say that it is not released for this platform.
    ReportUnsupported(Version),
}

/// What `remove` does.
#[derive(Debug)]
pub enum RemoveCmdAction {
    /// Remove every installed version and unset the global version.
    RemoveAll,
    /// Ask whether to remove it.
    AskToRemove(Version),
    /// Say that it is not installed.
    ReportNotFound(Version),
}

/// What becomes of the global version when a version was removed.
#[derive(Debug)]
pub enum GlobalChange {
    /// It stays as it is.
    Keep,
    /// It becomes this version.
    Replace(Version),
    /// It is unset.
    Unset,
}

impl InstallCmd {
    /// What to do with one of the versions to install, given the installed
    /// versions and those released for the platform. A text that is no
    /// version is an error.
    pub fn decide(text: &str, installed: &Vec<Version>, all: &Vec<Version>) -> (r: Result<
        InstallCmdAction,
        SvmError,
    >)
        ensures
            match spec_parse(text@) {
                None => r matches Err(e) && e@ == SvmErrorView::InvalidVersion(text@),
                Some(v) => match spec_standing(v, views(installed@), views(all@)) {
                    Standing::Installed => r matches Ok(InstallCmdAction::AskToSetGlobal(x)) && x@
                        == v,
                    Standing::Released => r matches Ok(InstallCmdAction::Install(x)) && x@ == v,
                    Standing::Unknown => r matches Ok(InstallCmdAction::ReportUnsupported(x))
                        && x@ == v,
                },
            },
    {
        let version = Version::parse(text)?;
        match standing(&version, installed, all) {
            Standing::Installed => Ok(InstallCmdAction::AskToSetGlobal(version)),
            Standing::Released => Ok(InstallCmdAction::Install(version)),
            Standing::Unknown => Ok(InstallCmdAction::ReportUnsupported(version)),
        }
    }
}

impl UseCmd {
    /// What to do, given the installed versions and those released for the
    /// platform. A text that is no version is an error.
    pub fn decide(&self, installed: &Vec<Version>, all: &Vec<Version>) -> (r: Result<
        UseCmdAction,
        SvmError,
    >)
        ensures
            match spec_parse(self.version@) {
                None => r matches Err(e) && e@ == SvmErrorView::InvalidVersion(self.version@),
                Some(v) => match spec_standing(v, views(installed@), views(all@)) {
                    Standing::Installed => r matches Ok(UseCmdAction::SetGlobal(x)) && x@ == v,
                    Standing::Released => r matches Ok(UseCmdAction::AskToInstall(x)) && x@ == v,
                    Standing::Unknown => r matches Ok(UseCmdAction::ReportUnsupported(x)) && x@
                        == v,
                },
            },
    {
        let version = Version::parse(self.version.as_str())?;
        match standing(&version, installed, all) {
            Standing::Installed => Ok(UseCmdAction::SetGlobal(version)),
            Standing::Released => Ok(UseCmdAction::AskToInstall(version)),
            Standing::Unknown => Ok(UseCmdAction::ReportUnsupported(version)),
        }
    }
}

/// Whether a text is `all`, in any case of its letters.
pub open spec fn spec_is_all(text: Seq<char>) -> bool {
    &&& text.len() == 3
    &&& text[0] == 'a' || text[0] == 'A'
    &&& text[1] == 'l' || text[1] == 'L'
    &&& text[2] == 'l' || text[2] == 'L'
}

/// Whether a text asks for all versions.
pub fn is_all(text: &str) -> (r: bool)
    ensures
        r == spec_is_all(text@),
{
    if text.unicode_len() != 3 {
        return false;
    }
    let a = text.get_char(0);
    let b = text.get_char(1);
    let c = text.get_char(2);
    (a == 'a' || a == 'A') && (b == 'l' || b == 'L') && (c == 'l' || c == 'L')
}

/// The index at which a version first occurs in a list.
pub open spec fn first_index(list: Seq<VersionView>, v: VersionView) -> Option<int> {
    if list.contains(v) {
        Some(
            choose|i: int|
                0 <= i < list.len() && list[i] == v && forall|j: int|
                    0 <= j < i ==> #[trigger] list[j] != v,
        )
    } else {
        None
    }
}

/// The global version after the removal of a version. Nothing changes unless
/// the removed version was the global one and among the installed. Then the
/// last of the other installed versions takes its place, and where there is
/// none the global version is unset.
pub open spec fn spec_global_after_removal(
    installed: Seq<VersionView>,
    current: Option<VersionView>,
    removed: VersionView,
) -> Option<Option<VersionView>> {
    match first_index(installed, removed) {
        Some(i) if current == Some(removed) => {
            let left = installed.remove(i);
            if left.len() > 0 {
                Some(Some(left.last()))
            } else {
                Some(None)
            }
        },
        _ => None,
    }
}

impl RemoveCmd {
    /// What to do, given the installed versions. A text that is neither
    /// `all` nor a version is an error.
    pub fn decide(&self, installed: &Vec<Version>) -> (r: Result<RemoveCmdAction, SvmError>)
        ensures
            spec_is_all(self.version@) ==> r matches Ok(RemoveCmdAction::RemoveAll),
            !spec_is_all(self.version@) ==> match spec_parse(self.version@) {
                None => r matches Err(e) && e@ == SvmErrorView::InvalidVersion(self.version@),
                Some(v) => if views(installed@).contains(v) {
                    r matches Ok(RemoveCmdAction::AskToRemove(x)) && x@ == v
                } else {
                    r matches Ok(RemoveCmdAction::ReportNotFound(x)) && x@ == v
                },
            },
    {
        if is_all(self.version.as_str()) {
            return Ok(RemoveCmdAction::RemoveAll);
        }
        let version = Version::parse(self.version.as_str())?;
        if contains(installed, &version) {
            Ok(RemoveCmdAction::AskToRemove(version))
        } else {
            Ok(RemoveCmdAction::ReportNotFound(version))
        }
    }

    /// What becomes of the global version once `removed` is gone, given the
    /// versions that were installed before and the global version.
    pub fn global_after_removal(
        installed: &Vec<Version>,
        current: &Option<Version>,
        removed: &Version,
    ) -> (r: GlobalChange)
        ensures
            match spec_global_after_removal(
                views(installed@),
                match current {
                    Some(c) => Some(c@),
                    None => None,
                },
                removed@,
            ) {
                None => r is Keep,
                Some(None) => r is Unset,
                Some(Some(v)) => r matches GlobalChange::Replace(x) && x@ == v,
            },
    {
        let ghost list = views(installed@);
        let ghost global = match current {
            Some(c) => Some(c@),
            None => None,
        };
        let was_global = match current {
            Some(c) => c.same(removed),
            None => false,
        };
        let mut i: usize = 0;
        while i < installed.len()
            invariant
                i <= installed.len(),
                list == views(installed@),
                was_global == (global == Some(removed@)),
                global == (match current {
                    Some(c) => Some(c@),
                    None => None,
                }),
                forall|j: int| 0 <= j < i ==> #[trigger] list[j] != removed@,
            decreases installed.len() - i,
        {
            if installed[i].same(removed) {
                proof {
                    assert(list[i as int] == removed@);
                }
                if !was_global {
                    return GlobalChange::Keep;
                }
                let n = installed.len();
                if n == 1 {
                    return GlobalChange::Unset;
                }
                if i == n - 1 {
                    return GlobalChange::Replace(installed[n - 2].clone());
                }
                return GlobalChange::Replace(installed[n - 1].clone());
            }
            i += 1;
        }
        GlobalChange::Keep
    }
}

impl ListCmd {
    /// The versions that can be installed: those released for the platform
    /// and not installed, each once, in ascending order.
    pub fn available_versions(all: &Vec<Version>, installed: &Vec<Version>) -> (r: Vec<Version>)
        ensures
            ascending(views(r@)),
            views(r@).no_duplicates(),
            forall|v: VersionView|
                views(r@).contains(v) <==> views(all@).contains(v) && !views(installed@).contains(
                    v,
                ),
    {
        let ghost src = views(all@);
        let ghost inst = views(installed@);
        let mut found: Vec<Version> = Vec::new();
        let mut i: usize = 0;
        while i < all.len()
            invariant
                i <= all.len(),
                src == views(all@),
                inst == views(installed@),
                views(found@).no_duplicates(),
                forall|v: VersionView|
                    #![trigger views(found@).contains(v)]
                    #![trigger src.take(i as int).contains(v)]
                    views(found@).contains(v) <==> src.take(i as int).contains(v) && !inst.contains(
                        v,
                    ),
            decreases all.len() - i,
        {
            let ghost before = views(found@);
            let version = &all[i];
            proof {
                assert forall|v: VersionView|
                    src.take(i + 1).contains(v) <==> src.take(i as int).contains(v) || v
                        == version@ by {
                    let longer = src.take(i + 1);
                    let shorter = src.take(i as int);
                    if v == version@ {
                        assert(longer[i as int] == v);
                    }
                }
            }
            if !contains(installed, version) && !contains(&found, version) {
                found.push(version.clone());
                proof {
                    let after = views(found@);
                    assert(after =~= before.push(version@));
                    assert(after[after.len() - 1] == version@);
                    assert forall|v: VersionView| after.contains(v) <==> before.contains(v) || v
                        == version@ by {
                        if before.contains(v) {
                            let k = choose|k: int| 0 <= k < before.len() && before[k] == v;
                            assert(after[k] == v);
                        }
                    }
                }
            }
            proof {
                let after = views(found@);
                assert forall|v: VersionView|
                    after.contains(v) <==> src.take(i + 1).contains(v) && !inst.contains(v) by {
                    assert(before.contains(v) <==> src.take(i as int).contains(v) && !inst.contains(
                        v,
                    ));
                }
            }
            i += 1;
        }
        proof {
            assert(src.take(all.len() as int) =~= src);
        }
        sort(&mut found);
        found
    }
}

} // verus!
