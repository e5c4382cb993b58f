//! Semantic versions: the key under which releases are published, installed and selected.

use core::cmp::Ordering;
use vstd::prelude::*;
use vstd::string::*;
use vstd::std_specs::cmp::{PartialEqSpecImpl, PartialOrdSpecImpl};
use crate::error::{SvmError, SvmErrorView};
use crate::text::push_char;

verus! {

/// `semver::Error`: why a text is no version. It is carried, never read.
#[verifier::external_type_specification]
#[verifier::external_body]
pub struct ExSemverError(semver::Error);

/// Whether `c` is one of `0-9`.
pub open spec fn is_digit(c: char) -> bool {
    '0' <= c <= '9'
}

/// Whether `c` may stand in an identifier: a digit, a letter of `A-Z` or
/// `a-z`, or a hyphen.
pub open spec fn is_identifier_char(c: char) -> bool {
    is_digit(c) || ('A' <= c <= 'Z') || ('a' <= c <= 'z') || c == '-'
}

/// Whether the text is identifiers with a dot between each two, none of them
/// empty. The empty text, which holds no identifier, is such a text.
pub open spec fn dotted_identifiers(text: Seq<char>) -> bool {
    &&& forall|i: int|
        0 <= i < text.len() ==> is_identifier_char(#[trigger] text[i]) || text[i] == '.'
    &&& forall|i: int|
        0 <= i < text.len() && (#[trigger] text[i]) == '.' ==> 0 < i < text.len() - 1 && text[i
            + 1] != '.'
}

/// Whether no dot stands from `i` to `j`: both lie in one identifier.
pub open spec fn same_identifier(text: Seq<char>, i: int, j: int) -> bool {
    forall|k: int| i <= k <= j ==> (#[trigger] text[k]) != '.'
}

/// Whether the identifier that begins at `i` is a number with a needless
/// zero in front: it begins with `0`, goes on, and holds digits only.
pub open spec fn has_leading_zero(text: Seq<char>, i: int) -> bool {
    &&& 0 <= i < text.len() - 1
    &&& i == 0 || text[i - 1] == '.'
    &&& text[i] == '0'
    &&& text[i + 1] != '.'
    &&& forall|j: int| i <= j < text.len() && #[trigger] same_identifier(text, i, j) ==> is_digit(
        text[j],
    )
}

/// Whether the text can be the pre-release part of a version: identifiers
/// with dots between them, no number among them with a zero in front. The
/// empty text is the part of a release.
pub open spec fn prerelease_syntax(text: Seq<char>) -> bool {
    dotted_identifiers(text) && forall|i: int| !#[trigger] has_leading_zero(text, i)
}

/// Whether the text can be the build metadata of a version: identifiers with
/// dots between them. The empty text is no metadata.
pub open spec fn build_syntax(text: Seq<char>) -> bool {
    dotted_identifiers(text)
}

/// How `semver` orders two pre-release parts, neither of them empty.
pub uninterp spec fn prerelease_precedence(a: Seq<char>, b: Seq<char>) -> Ordering;

/// How `semver` orders the build metadata of two versions, neither of them empty.
pub uninterp spec fn build_precedence(a: Seq<char>, b: Seq<char>) -> Ordering;

/// A version as plain values: three numbers, the pre-release part and the
/// build metadata, each of the two empty where the version has none.
pub struct VersionView {
    pub major: u64,
    pub minor: u64,
    pub patch: u64,
    pub pre: Seq<char>,
    pub build: Seq<char>,
}

/// The decimal digits of a number, without leading zeros.
pub open spec fn decimal(n: nat) -> Seq<char>
    decreases n,
{
    if n < 10 {
        seq![(n + '0' as nat) as char]
    } else {
        decimal(n / 10).push((n % 10 + '0' as nat) as char)
    }
}

/// The pre-release part as it follows the numbers: nothing, or `-` and the part.
pub open spec fn prerelease_suffix(pre: Seq<char>) -> Seq<char> {
    if pre.len() == 0 {
        pre
    } else {
        seq!['-'] + pre
    }
}

/// The build metadata as it ends a version: nothing, or `+` and the metadata.
pub open spec fn build_suffix(build: Seq<char>) -> Seq<char> {
    if build.len() == 0 {
        build
    } else {
        seq!['+'] + build
    }
}

impl VersionView {
    /// A version without pre-release part and build metadata.
    pub open spec fn release(major: u64, minor: u64, patch: u64) -> VersionView {
        VersionView { major, minor, patch, pre: Seq::empty(), build: Seq::empty() }
    }

    /// Whether the two texts are parts that a version can have.
    pub open spec fn valid(self) -> bool {
        prerelease_syntax(self.pre) && build_syntax(self.build)
    }

    /// The version as it is written: `1.3.17`, `1.4.0-rc.1`, `1.4.0+build.5`.
    pub open spec fn text(self) -> Seq<char> {
        decimal(self.major as nat) + seq!['.'] + decimal(self.minor as nat) + seq!['.'] + decimal(
            self.patch as nat,
        ) + prerelease_suffix(self.pre) + build_suffix(self.build)
    }
}

/// The version that a text stands for, if it is the text of one.
pub open spec fn spec_parse(text: Seq<char>) -> Option<VersionView> {
    if exists|v: VersionView| v.valid() && #[trigger] v.text() == text {
        Some(choose|v: VersionView| v.valid() && #[trigger] v.text() == text)
    } else {
        None
    }
}

/// The order seen from the other side.
pub open spec fn reversed(order: Ordering) -> Ordering {
    match order {
        Ordering::Less => Ordering::Greater,
        Ordering::Equal => Ordering::Equal,
        Ordering::Greater => Ordering::Less,
    }
}

/// The order of two numbers.
pub open spec fn number_order(a: u64, b: u64) -> Ordering {
    if a < b {
        Ordering::Less
    } else if a == b {
        Ordering::Equal
    } else {
        Ordering::Greater
    }
}

/// The order of two pre-release parts. A version without one is a release
/// and comes after every pre-release of the same numbers.
pub open spec fn prerelease_order(a: Seq<char>, b: Seq<char>) -> Ordering {
    if a.len() == 0 && b.len() == 0 {
        Ordering::Equal
    } else if a.len() == 0 {
        Ordering::Greater
    } else if b.len() == 0 {
        Ordering::Less
    } else {
        prerelease_precedence(a, b)
    }
}

/// The order of the build metadata of two versions. A version without any
/// comes before every version that differs from it in nothing else.
pub open spec fn build_order(a: Seq<char>, b: Seq<char>) -> Ordering {
    if a.len() == 0 && b.len() == 0 {
        Ordering::Equal
    } else if a.len() == 0 {
        Ordering::Less
    } else if b.len() == 0 {
        Ordering::Greater
    } else {
        build_precedence(a, b)
    }
}

/// The total order of versions: by major, minor and patch number, then by
/// pre-release part, then by build metadata; the first difference decides.
pub open spec fn version_order(a: VersionView, b: VersionView) -> Ordering {
    if a.major != b.major {
        number_order(a.major, b.major)
    } else if a.minor != b.minor {
        number_order(a.minor, b.minor)
    } else if a.patch != b.patch {
        number_order(a.patch, b.patch)
    } else if prerelease_order(a.pre, b.pre) != Ordering::Equal {
        prerelease_order(a.pre, b.pre)
    } else {
        build_order(a.build, b.build)
    }
}

/// Whether `a` comes before `b`.
pub open spec fn version_lt(a: VersionView, b: VersionView) -> bool {
    version_order(a, b) == Ordering::Less
}

/// Whether `a` does not come after `b`.
pub open spec fn version_le(a: VersionView, b: VersionView) -> bool {
    version_order(a, b) != Ordering::Greater
}

/// A semantic version. Its two texts are always parts that `semver` accepts.
#[derive(Debug)]
pub struct Version {
    major: u64,
    minor: u64,
    patch: u64,
    pre: String,
    build: String,
}

impl View for Version {
    type V = VersionView;

    closed spec fn view(&self) -> VersionView {
        VersionView {
            major: self.major,
            minor: self.minor,
            patch: self.patch,
            pre: self.pre@,
            build: self.build@,
        }
    }
}

/// The version that five plain values stand for.
pub open spec fn parts_view(p: (u64, u64, u64, String, String)) -> VersionView {
    VersionView { major: p.0, minor: p.1, patch: p.2, pre: p.3@, build: p.4@ }
}

/// Calls `semver::Version::parse` and hands out the parts of what it read.
/// `semver` reads exactly the texts that are written as `VersionView::text`
/// says, for numbers that fit 64 bits and parts that it accepts, and gives the
/// version that is written so: no two versions share a text.
#[verifier::external_body]
fn parse_parts(text: &str) -> (r: Result<(u64, u64, u64, String, String), semver::Error>)
    ensures
        r matches Ok(p) ==> {
            &&& prerelease_syntax(p.3@)
            &&& build_syntax(p.4@)
            &&& parts_view(p).text() == text@
            &&& forall|v: VersionView| v.valid() && #[trigger] v.text() == text@ ==> v == parts_view(p)
        },
        r is Err ==> forall|v: VersionView| v.valid() ==> #[trigger] v.text() != text@,
{
    let v = semver::Version::parse(text)?;
    Ok((v.major, v.minor, v.patch, v.pre.as_str().to_string(), v.build.as_str().to_string()))
}

/// Calls `semver::Prerelease::new` and says whether it took the text. It
/// takes the empty text, and else identifiers of `0-9`, `A-Z`, `a-z` and `-`
/// with a dot between each two, none empty and no number with a zero in front.
#[verifier::external_body]
fn is_prerelease(text: &str) -> (r: bool)
    ensures
        r == prerelease_syntax(text@),
{
    semver::Prerelease::new(text).is_ok()
}

/// Calls `semver::BuildMetadata::new` and says whether it took the text. It
/// takes the empty text, and else identifiers of `0-9`, `A-Z`, `a-z` and `-`
/// with a dot between each two, none empty.
#[verifier::external_body]
fn is_build_metadata(text: &str) -> (r: bool)
    ensures
        r == build_syntax(text@),
{
    semver::BuildMetadata::new(text).is_ok()
}

/// Calls `Ord::cmp` of `semver::Prerelease`, for which an empty text is the
/// part of a release. A release comes after every pre-release. The order is
/// total: seen from the other side it is reversed, and only a part and itself
/// are equal.
#[verifier::external_body]
fn prerelease_cmp(a: &str, b: &str) -> (r: Ordering)
    requires
        prerelease_syntax(a@),
        prerelease_syntax(b@),
    ensures
        r == prerelease_order(a@, b@),
        a@.len() > 0 && b@.len() > 0 ==> r == prerelease_precedence(a@, b@) && reversed(r)
            == prerelease_precedence(b@, a@),
        r is Equal <==> a@ == b@,
{
    semver::Prerelease::new(a).unwrap().cmp(&semver::Prerelease::new(b).unwrap())
}

/// Calls `Ord::cmp` of `semver::BuildMetadata`, for which an empty text is no
/// metadata. No metadata comes before any. The order is total: seen from the
/// other side it is reversed, and only a text and itself are equal.
#[verifier::external_body]
fn build_cmp(a: &str, b: &str) -> (r: Ordering)
    requires
        build_syntax(a@),
        build_syntax(b@),
    ensures
        r == build_order(a@, b@),
        a@.len() > 0 && b@.len() > 0 ==> r == build_precedence(a@, b@) && reversed(r)
            == build_precedence(b@, a@),
        r is Equal <==> a@ == b@,
{
    semver::BuildMetadata::new(a).unwrap().cmp(&semver::BuildMetadata::new(b).unwrap())
}

/// Writes a number in decimal digits.
fn decimal_text(n: u64) -> (r: String)
    ensures
        r@ == decimal(n as nat),
    decreases n,
{
    let mut text = if n < 10 {
        String::new()
    } else {
        decimal_text(n / 10)
    };
    let digit = (n % 10) as u8;
    push_char(&mut text, (digit + 48u8) as char);
    text
}

/// The versions of a list as plain values, in the list's order.
pub open spec fn views(versions: Seq<Version>) -> Seq<VersionView> {
    versions.map_values(|v: Version| v@)
}

/// Whether each version of the list is followed only by versions that do not
/// come before it.
pub open spec fn ascending(versions: Seq<VersionView>) -> bool {
    forall|i: int, j: int|
        0 <= i < j < versions.len() ==> version_le(#[trigger] versions[i], #[trigger] versions[j])
}

/// Calls `sort_unstable_by` of the standard library with `Version::compare`,
/// which orders as `semver` does: a total order. The list then holds the
/// versions it held, each as often as before, in ascending order.
#[verifier::external_body]
fn sort_versions(versions: &mut Vec<Version>)
    ensures
        views(final(versions)@).to_multiset() == views(old(versions)@).to_multiset(),
        ascending(views(final(versions)@)),
{
    versions.sort_unstable_by(|a, b| a.compare(b));
}

/// Puts a list of versions in ascending order. It then holds the versions it
/// held, each as often as before.
pub fn sort(versions: &mut Vec<Version>)
    ensures
        ascending(views(final(versions)@)),
        views(final(versions)@).to_multiset() == views(old(versions)@).to_multiset(),
        final(versions)@.len() == old(versions)@.len(),
        forall|v: VersionView|
            views(final(versions)@).contains(v) <==> views(old(versions)@).contains(v),
        views(old(versions)@).no_duplicates() ==> views(final(versions)@).no_duplicates(),
{
    let ghost before = views(versions@);
    sort_versions(versions);
    proof {
        let after = views(versions@);
        before.to_multiset_ensures();
        after.to_multiset_ensures();
        assert forall|v: VersionView| after.contains(v) <==> before.contains(v) by {
            assert(before.contains(v) <==> before.to_multiset().count(v) > 0);
        }
        if before.no_duplicates() {
            before.lemma_multiset_has_no_duplicates();
            after.lemma_multiset_has_no_duplicates_conv();
        }
    }
}

/// Whether a list holds a version.
pub fn contains(versions: &Vec<Version>, version: &Version) -> (r: bool)
    ensures
        r == views(versions@).contains(version@),
{
    let mut i: usize = 0;
    while i < versions.len()
        invariant
            i <= versions.len(),
            forall|j: int| 0 <= j < i ==> (#[trigger] views(versions@)[j]) != version@,
        decreases versions.len() - i,
    {
        if versions[i].same(version) {
            proof {
                assert(views(versions@)[i as int] == version@);
            }
            return true;
        }
        i += 1;
    }
    false
}

/// Orders two numbers.
fn order_of_numbers(a: u64, b: u64) -> (r: Ordering)
    ensures
        r == number_order(a, b),
{
    if a < b {
        Ordering::Less
    } else if a == b {
        Ordering::Equal
    } else {
        Ordering::Greater
    }
}

impl Version {
    /// Holds of every version in use: its parts are parts that a version can have.
    #[verifier::type_invariant]
    pub open spec fn inv(&self) -> bool {
        self@.valid()
    }

    /// The release `major.minor.patch`.
    pub fn new(major: u64, minor: u64, patch: u64) -> (r: Version)
        ensures
            r@ == VersionView::release(major, minor, patch),
    {
        Version { major, minor, patch, pre: String::new(), build: String::new() }
    }

    /// The version of the given parts, or the first of the two texts that is
    /// no part of a version. An empty text stands for a part that is not there.
    pub fn from_parts(major: u64, minor: u64, patch: u64, pre: &str, build: &str) -> (r: Result<
        Version,
        SvmError,
    >)
        ensures
            !prerelease_syntax(pre@) ==> (r matches Err(e) && e@ == SvmErrorView::InvalidVersion(
                pre@,
            )),
            prerelease_syntax(pre@) && !build_syntax(build@) ==> (r matches Err(e) && e@
                == SvmErrorView::InvalidVersion(build@)),
            prerelease_syntax(pre@) && build_syntax(build@) ==> (r matches Ok(v) && v@
                == (VersionView { major, minor, patch, pre: pre@, build: build@ })),
    {
        if !is_prerelease(pre) {
            return Err(SvmError::InvalidVersion(String::from_str(pre)));
        }
        if !is_build_metadata(build) {
            return Err(SvmError::InvalidVersion(String::from_str(build)));
        }
        Ok(
            Version {
                major,
                minor,
                patch,
                pre: String::from_str(pre),
                build: String::from_str(build),
            },
        )
    }

    /// Reads a version from its text. The text of every version reads back
    /// as that version, and nothing else is read as one.
    pub fn parse(text: &str) -> (r: Result<Version, SvmError>)
        ensures
            match spec_parse(text@) {
                Some(v) => r matches Ok(x) && x@ == v,
                None => r matches Err(e) && e@ == SvmErrorView::InvalidVersion(text@),
            },
            r matches Ok(v) ==> v@.valid() && v@.text() == text@,
            forall|v: VersionView|
                v.valid() && #[trigger] v.text() == text@ ==> (r matches Ok(x) && x@ == v),
    {
        match parse_parts(text) {
            Ok(p) => {
                let (major, minor, patch, pre, build) = p;
                Ok(Version { major, minor, patch, pre, build })
            },
            Err(_) => Err(SvmError::InvalidVersion(String::from_str(text))),
        }
    }

    /// The major number.
    pub fn major(&self) -> (r: u64)
        ensures
            r == self@.major,
    {
        self.major
    }

    /// The minor number.
    pub fn minor(&self) -> (r: u64)
        ensures
            r == self@.minor,
    {
        self.minor
    }

    /// The patch number.
    pub fn patch(&self) -> (r: u64)
        ensures
            r == self@.patch,
    {
        self.patch
    }

    /// The pre-release part, empty for a release.
    pub fn pre(&self) -> (r: &str)
        ensures
            r@ == self@.pre,
    {
        self.pre.as_str()
    }

    /// The build metadata, empty where the version has none.
    pub fn build(&self) -> (r: &str)
        ensures
            r@ == self@.build,
    {
        self.build.as_str()
    }

    /// Writes the version as `VersionView::text` says.
    pub fn to_string(&self) -> (r: String)
        ensures
            r@ == self@.text(),
    {
        proof {
            reveal_strlit(".");
            reveal_strlit("-");
            reveal_strlit("+");
        }
        let mut s = decimal_text(self.major);
        s.append(".");
        s.append(decimal_text(self.minor).as_str());
        s.append(".");
        s.append(decimal_text(self.patch).as_str());
        if !self.pre.as_str().is_empty() {
            s.append("-");
            s.append(self.pre.as_str());
        }
        if !self.build.as_str().is_empty() {
            s.append("+");
            s.append(self.build.as_str());
        }
        s
    }

    /// Orders two versions as `version_order` says. Seen from the other
    /// version the order is reversed, and only a version and itself are equal.
    pub fn compare(&self, other: &Version) -> (r: Ordering)
        ensures
            r == version_order(self@, other@),
            reversed(r) == version_order(other@, self@),
            r is Equal <==> self@ == other@,
    {
        proof {
            use_type_invariant(self);
            use_type_invariant(other);
        }
        if self.major != other.major {
            return order_of_numbers(self.major, other.major);
        }
        if self.minor != other.minor {
            return order_of_numbers(self.minor, other.minor);
        }
        if self.patch != other.patch {
            return order_of_numbers(self.patch, other.patch);
        }
        let by_pre = prerelease_cmp(self.pre.as_str(), other.pre.as_str());
        match by_pre {
            Ordering::Equal => build_cmp(self.build.as_str(), other.build.as_str()),
            _ => by_pre,
        }
    }

    /// Whether this version comes before the other.
    pub fn lt(&self, other: &Version) -> (r: bool)
        ensures
            r == version_lt(self@, other@),
    {
        match self.compare(other) {
            Ordering::Less => true,
            _ => false,
        }
    }

    /// Whether this version does not come after the other.
    pub fn le(&self, other: &Version) -> (r: bool)
        ensures
            r == version_le(self@, other@),
    {
        match self.compare(other) {
            Ordering::Greater => false,
            _ => true,
        }
    }

    /// Whether the two versions agree in every part.
    pub fn same(&self, other: &Version) -> (r: bool)
        ensures
            r == (self@ == other@),
    {
        let r = self.major == other.major && self.minor == other.minor && self.patch == other.patch
            && self.pre == other.pre && self.build == other.build;
        r
    }
}

impl Clone for Version {
    fn clone(&self) -> (r: Version)
        ensures
            r@ == self@,
    {
        proof {
            use_type_invariant(self);
        }
        Version {
            major: self.major,
            minor: self.minor,
            patch: self.patch,
            pre: self.pre.clone(),
            build: self.build.clone(),
        }
    }
}

impl PartialEq for Version {
    fn eq(&self, other: &Version) -> (r: bool) {
        self.major == other.major && self.minor == other.minor && self.patch == other.patch
            && self.pre == other.pre && self.build == other.build
    }
}

impl Eq for Version {

}

impl PartialEqSpecImpl for Version {
    open spec fn obeys_eq_spec() -> bool {
        true
    }

    open spec fn eq_spec(&self, other: &Version) -> bool {
        self@.major == other@.major && self@.minor == other@.minor && self@.patch == other@.patch
            && self@.pre == other@.pre && self@.build == other@.build
    }
}

impl PartialOrd for Version {
    fn partial_cmp(&self, other: &Version) -> (r: Option<Ordering>) {
        Some(self.compare(other))
    }
}

impl PartialOrdSpecImpl for Version {
    open spec fn obeys_partial_cmp_spec() -> bool {
        true
    }

    open spec fn partial_cmp_spec(&self, other: &Version) -> Option<Ordering> {
        Some(version_order(self@, other@))
    }
}

} // verus!
