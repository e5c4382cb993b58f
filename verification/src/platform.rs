//! The closed set of platforms that releases are published for.

use vstd::prelude::*;
use vstd::string::*;

verus! {

/// A platform tag. `Other` stands for every host that has no releases of its own.
#[derive(Clone, Copy, Debug, PartialEq, Eq, Structural)]
pub enum Platform {
    LinuxAmd64,
    LinuxAarch64,
    MacOsAmd64,
    MacOsAarch64,
    WindowsAmd64,
    Other,
}

/// The platform of a host, from the names of its operating system and its architecture.
pub open spec fn spec_identify(os: Seq<char>, arch: Seq<char>) -> Platform {
    if os == "linux"@ && arch == "x86_64"@ {
        Platform::LinuxAmd64
    } else if os == "linux"@ && arch == "aarch64"@ {
        Platform::LinuxAarch64
    } else if os == "macos"@ && arch == "x86_64"@ {
        Platform::MacOsAmd64
    } else if os == "macos"@ && arch == "aarch64"@ {
        Platform::MacOsAarch64
    } else if os == "windows"@ && arch == "x86_64"@ {
        Platform::WindowsAmd64
    } else {
        Platform::Other
    }
}

/// Whether two texts hold the same characters.
pub fn same_text(a: &str, b: &str) -> (r: bool)
    ensures
        r == (a@ == b@),
{
    a.to_owned() == b.to_owned()
}

/// Maps the host's operating system and architecture, named as the standard
/// library names them, to a platform. Never fails: an unknown pair is `Other`.
pub fn identify(os: &str, arch: &str) -> (r: Platform)
    ensures
        r == spec_identify(os@, arch@),
{
    let x86 = same_text(arch, "x86_64");
    let arm = same_text(arch, "aarch64");
    if same_text(os, "linux") {
        if x86 {
            Platform::LinuxAmd64
        } else if arm {
            Platform::LinuxAarch64
        } else {
            Platform::Other
        }
    } else if same_text(os, "macos") {
        if x86 {
            Platform::MacOsAmd64
        } else if arm {
            Platform::MacOsAarch64
        } else {
            Platform::Other
        }
    } else if same_text(os, "windows") && x86 {
        Platform::WindowsAmd64
    } else {
        Platform::Other
    }
}

impl Platform {
    /// The tag under which the platform is written in messages and paths.
    pub open spec fn spec_tag(self) -> Seq<char> {
        match self {
            Platform::LinuxAmd64 => "linux-amd64"@,
            Platform::LinuxAarch64 => "linux-aarch64"@,
            Platform::MacOsAmd64 => "macos-amd64"@,
            Platform::MacOsAarch64 => "macos-aarch64"@,
            Platform::WindowsAmd64 => "windows-amd64"@,
            Platform::Other => "other"@,
        }
    }

    /// The tag under which the platform is written in messages and paths.
    pub fn tag(&self) -> (r: &'static str)
        ensures
            r@ == self.spec_tag(),
    {
        match self {
            Platform::LinuxAmd64 => "linux-amd64",
            Platform::LinuxAarch64 => "linux-aarch64",
            Platform::MacOsAmd64 => "macos-amd64",
            Platform::MacOsAarch64 => "macos-aarch64",
            Platform::WindowsAmd64 => "windows-amd64",
            Platform::Other => "other",
        }
    }

    /// The tag as an owned string.
    pub fn to_string(&self) -> (r: String)
        ensures
            r@ == self.spec_tag(),
    {
        String::from_str(self.tag())
    }

    /// Whether releases are published for this platform.
    pub open spec fn spec_is_supported(self) -> bool {
        self != Platform::Other
    }

    /// Whether releases are published for this platform.
    pub fn is_supported(&self) -> (r: bool)
        ensures
            r == self.spec_is_supported(),
    {
        match self {
            Platform::Other => false,
            _ => true,
        }
    }
}

} // verus!
