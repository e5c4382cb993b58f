//! Where the artifact of a release is fetched from, and which versions each
//! platform is served with.
//!
//! The sources are a fixed table: one place for each platform that has
//! binaries of its own, and one shared place, divided by platform tag, for
//! every other host. The name of an artifact is put behind its place as one
//! percent-encoded path segment.

use vstd::prelude::*;
use vstd::string::*;
use vstd::utf8::{encode_utf8, is_ascii_chars, is_ascii_chars_encode_utf8};
use crate::error::{SvmError, SvmErrorView};
use crate::platform::Platform;
use crate::text::push_char;
use crate::version::{version_le, version_lt, Version, VersionView};

verus! {

/// `url::ParseError`: why a text is no URL. It is carried, never read.
#[verifier::external_type_specification]
#[verifier::external_body]
pub struct ExUrlParseError(url::ParseError);

/// The text that `url` writes for the absolute URL that it reads from a text,
/// if it reads one.
pub uninterp spec fn url_serialization(text: Seq<char>) -> Option<Seq<char>>;

/// Calls `url::Url::parse` and hands out the serialization of the URL that it
/// read from the text.
#[verifier::external_body]
fn parse_url(text: &str) -> (r: Result<String, url::ParseError>)
    ensures
        r matches Ok(s) ==> url_serialization(text@) == Some(s@),
        r is Err ==> url_serialization(text@) is None,
{
    Ok(String::from(url::Url::parse(text)?))
}

/// Whether `text` starts with `prefix`.
pub open spec fn begins_with(text: Seq<char>, prefix: Seq<char>) -> bool {
    prefix.len() <= text.len() && text.subrange(0, prefix.len() as int) == prefix
}

/// Whether `text` ends with `suffix`.
pub open spec fn ends_with(text: Seq<char>, suffix: Seq<char>) -> bool {
    suffix.len() <= text.len() && text.subrange(text.len() - suffix.len(), text.len() as int)
        == suffix
}

/// Whether a byte is written as it is in a path segment: a letter of `A-Z` or
/// `a-z`, a digit, or one of `-`, `.`, `_`, `+`, `~`.
pub open spec fn is_plain_byte(b: u8) -> bool {
    ||| 0x30 <= b <= 0x39
    ||| 0x41 <= b <= 0x5a
    ||| 0x61 <= b <= 0x7a
    ||| b == 0x2d
    ||| b == 0x2e
    ||| b == 0x5f
    ||| b == 0x2b
    ||| b == 0x7e
}

/// The uppercase hexadecimal digit for a number below 16.
pub open spec fn upper_hex_digit(n: int) -> char {
    if n < 10 {
        (n + 0x30) as char
    } else {
        (n - 10 + 0x41) as char
    }
}

/// A byte as it stands in a path segment: itself if it is plain, else `%`
/// and its two hexadecimal digits.
pub open spec fn encoded_byte(b: u8) -> Seq<char> {
    if is_plain_byte(b) {
        seq![b as char]
    } else {
        seq!['%', upper_hex_digit(b as int / 16), upper_hex_digit(b as int % 16)]
    }
}

/// Bytes as they stand in a path segment, one after the other.
pub open spec fn encoded_bytes(bytes: Seq<u8>) -> Seq<char>
    decreases bytes.len(),
{
    if bytes.len() == 0 {
        Seq::empty()
    } else {
        encoded_bytes(bytes.drop_last()) + encoded_byte(bytes.last())
    }
}

/// A name as one path segment of a URL: each byte of its UTF-8 encoding kept
/// if it is plain, else percent-encoded.
pub open spec fn spec_path_segment(name: Seq<char>) -> Seq<char> {
    encoded_bytes(encode_utf8(name))
}

/// Whether a name holds only characters that a path segment keeps.
pub open spec fn is_plain_name(name: Seq<char>) -> bool {
    forall|i: int| 0 <= i < name.len() ==> '\0' <= #[trigger] name[i] <= '\u{7f}' && is_plain_byte(
        name[i] as u8,
    )
}

/// Whether a character can stand in a path segment: a plain one, or `%`.
pub open spec fn is_segment_char(c: char) -> bool {
    c == '%' || ('\0' <= c <= '\u{7f}' && is_plain_byte(c as u8))
}

/// The place shared by the platforms that have none of their own.
pub open spec fn spec_fallback_base() -> Seq<char> {
    "https://github.com/dutterbutter/zksolc-bin/tree/db/generate-list"@
}

/// The place under which a platform's artifacts and its manifest lie.
pub open spec fn spec_url_prefix(p: Platform) -> Seq<char> {
    match p {
        Platform::LinuxAmd64 => "https://github.com/dutterbutter/zksolc-bin/raw/db/generate-list/linux-amd64"@,
        Platform::LinuxAarch64 => "https://github.com/dutterbutter/zksolc-bin/raw/db/generate-list/linux-arm64"@,
        Platform::MacOsAmd64 => "https://github.com/dutterbutter/zksolc-bin/raw/db/generate-list/macosx-amd64"@,
        Platform::MacOsAarch64 => "https://github.com/dutterbutter/zksolc-bin/raw/db/generate-list/macosx-arm64"@,
        Platform::WindowsAmd64 => "https://github.com/dutterbutter/zksolc-bin/raw/db/generate-list/windows-amd64"@,
        Platform::Other => spec_fallback_base() + seq!['/'] + p.spec_tag(),
    }
}

/// The oldest version that a platform is served with.
pub open spec fn spec_min_version(p: Platform) -> VersionView {
    VersionView::release(1, 3, 13)
}

/// The newest version that a platform is served with. A platform without
/// binaries of its own has no such bound.
pub open spec fn spec_max_version(p: Platform) -> Option<VersionView> {
    match p {
        Platform::Other => None,
        _ => Some(VersionView::release(1, 4, 1)),
    }
}

/// Whether the platform is served with the version: it is not older than the
/// oldest and not newer than the newest, both bounds included.
pub open spec fn spec_in_range(p: Platform, v: VersionView) -> bool {
    &&& !version_lt(v, spec_min_version(p))
    &&& spec_max_version(p) matches Some(max) ==> version_le(v, max)
}

/// The address of an artifact before a URL is made of it: the platform's
/// place, a slash and the artifact's name as one path segment; or the refusal
/// of the version.
pub open spec fn spec_artifact_location(p: Platform, v: VersionView, artifact: Seq<char>) -> Result<
    Seq<char>,
    SvmErrorView,
> {
    if spec_in_range(p, v) {
        Ok(spec_url_prefix(p) + seq!['/'] + spec_path_segment(artifact))
    } else {
        Err(SvmErrorView::UnsupportedVersion(v.text(), p.spec_tag()))
    }
}

/// What becomes of an address once `url` has read it.
pub open spec fn spec_resolved_url(address: Seq<char>, read: Option<Seq<char>>) -> Result<
    Seq<char>,
    SvmErrorView,
> {
    match read {
        Some(url) => Ok(url),
        None => Err(SvmErrorView::InvalidUrl(address)),
    }
}

/// The URL of an artifact, or the refusal of the version.
pub open spec fn spec_artifact_url(p: Platform, v: VersionView, artifact: Seq<char>) -> Result<
    Seq<char>,
    SvmErrorView,
> {
    match spec_artifact_location(p, v, artifact) {
        Ok(address) => spec_resolved_url(address, url_serialization(address)),
        Err(e) => Err(e),
    }
}

/// The uppercase hexadecimal digit for a number below 16.
fn upper_hex(n: u8) -> (r: char)
    requires
        n < 16,
    ensures
        r == upper_hex_digit(n as int),
{
    if n < 10 {
        (n + 0x30u8) as char
    } else {
        (n - 10 + 0x41u8) as char
    }
}

/// Whether a byte is written as it is in a path segment.
fn plain_byte(b: u8) -> (r: bool)
    ensures
        r == is_plain_byte(b),
{
    (0x30 <= b && b <= 0x39) || (0x41 <= b && b <= 0x5a) || (0x61 <= b && b <= 0x7a) || b == 0x2d
        || b == 0x2e || b == 0x5f || b == 0x2b || b == 0x7e
}

/// Writes a name as one path segment of a URL. What is no letter, digit or
/// one of `-`, `.`, `_`, `+`, `~` is percent-encoded byte by byte, so that
/// nothing in the name ends the path or divides it.
pub fn path_segment(name: &str) -> (r: String)
    ensures
        r@ == spec_path_segment(name@),
{
    let bytes = name.as_bytes();
    let mut segment = String::new();
    let mut i: usize = 0;
    while i < bytes.len()
        invariant
            i <= bytes.len(),
            segment@ == encoded_bytes(bytes@.take(i as int)),
        decreases bytes.len() - i,
    {
        let b = bytes[i];
        proof {
            assert(bytes@.take(i + 1).drop_last() =~= bytes@.take(i as int));
            assert(bytes@.take(i + 1).last() == b);
        }
        if plain_byte(b) {
            push_char(&mut segment, b as char);
        } else {
            push_char(&mut segment, '%');
            push_char(&mut segment, upper_hex(b / 16));
            push_char(&mut segment, upper_hex(b % 16));
        }
        proof {
            assert(segment@ =~= encoded_bytes(bytes@.take(i as int)) + encoded_byte(b));
        }
        i += 1;
    }
    proof {
        assert(bytes@.take(bytes.len() as int) =~= bytes@);
    }
    segment
}

/// The place under which a platform's artifacts and its manifest lie.
pub fn url_prefix(platform: Platform) -> (r: String)
    ensures
        r@ == spec_url_prefix(platform),
{
    match platform {
        Platform::LinuxAmd64 => String::from_str(
            "https://github.com/dutterbutter/zksolc-bin/raw/db/generate-list/linux-amd64",
        ),
        Platform::LinuxAarch64 => String::from_str(
            "https://github.com/dutterbutter/zksolc-bin/raw/db/generate-list/linux-arm64",
        ),
        Platform::MacOsAmd64 => String::from_str(
            "https://github.com/dutterbutter/zksolc-bin/raw/db/generate-list/macosx-amd64",
        ),
        Platform::MacOsAarch64 => String::from_str(
            "https://github.com/dutterbutter/zksolc-bin/raw/db/generate-list/macosx-arm64",
        ),
        Platform::WindowsAmd64 => String::from_str(
            "https://github.com/dutterbutter/zksolc-bin/raw/db/generate-list/windows-amd64",
        ),
        Platform::Other => {
            let mut s = String::from_str(
                "https://github.com/dutterbutter/zksolc-bin/tree/db/generate-list",
            );
            proof {
                reveal_strlit("/");
            }
            s.append("/");
            s.append(platform.tag());
            s
        },
    }
}

/// The oldest version that a platform is served with.
pub fn min_version(platform: Platform) -> (r: Version)
    ensures
        r@ == spec_min_version(platform),
{
    Version::new(1, 3, 13)
}

/// The newest version that a platform is served with, if it has such a bound.
pub fn max_version(platform: Platform) -> (r: Option<Version>)
    ensures
        match spec_max_version(platform) {
            Some(max) => r matches Some(x) && x@ == max,
            None => r is None,
        },
{
    match platform {
        Platform::Other => None,
        _ => Some(Version::new(1, 4, 1)),
    }
}

/// Whether the platform is served with the version.
pub fn in_range(platform: Platform, version: &Version) -> (r: bool)
    ensures
        r == spec_in_range(platform, version@),
{
    if *version < min_version(platform) {
        return false;
    }
    match max_version(platform) {
        Some(max) => *version <= max,
        None => true,
    }
}

/// The URL from which a platform's release manifest is fetched.
pub fn releases_url(platform: Platform) -> (r: String)
    ensures
        r@ == spec_url_prefix(platform) + "/list.json"@,
{
    let mut s = url_prefix(platform);
    s.append("/list.json");
    s
}

/// The address of an artifact before a URL is made of it: the platform's
/// place, a slash, and the name as one percent-encoded path segment. A
/// version outside the platform's range is refused, with the version and the
/// platform named.
pub fn artifact_location(platform: Platform, version: &Version, artifact: &str) -> (r: Result<
    String,
    SvmError,
>)
    ensures
        match spec_artifact_location(platform, version@, artifact@) {
            Ok(address) => r matches Ok(x) && x@ == address,
            Err(e) => r matches Err(x) && x@ == e,
        },
{
    if !in_range(platform, version) {
        return Err(SvmError::UnsupportedVersion(version.to_string(), platform.to_string()));
    }
    let mut s = url_prefix(platform);
    proof {
        reveal_strlit("/");
    }
    s.append("/");
    s.append(path_segment(artifact).as_str());
    Ok(s)
}

/// What becomes of an address once `url` has read it: the URL that it
/// wrote, or the address handed back as no URL.
pub fn resolved_url(address: &str, read: Option<String>) -> (r: Result<String, SvmError>)
    ensures
        match spec_resolved_url(
            address@,
            match read {
                Some(u) => Some(u@),
                None => None,
            },
        ) {
            Ok(url) => r matches Ok(x) && x@ == url,
            Err(e) => r matches Err(x) && x@ == e,
        },
{
    match read {
        Some(url) => Ok(url),
        None => Err(SvmError::InvalidUrl(String::from_str(address))),
    }
}

/// The URL of the artifact of a release for a platform. A version outside the
/// platform's range is refused. The URL is what `url` reads from the address,
/// in which the name is one percent-encoded path segment. To `url` the names
/// `.` and `..` are no segments of their own: for them it gives the URL of the
/// platform's place with a slash behind it, or of the place above.
pub fn artifact_url(platform: Platform, version: &Version, artifact: &str) -> (r: Result<
    String,
    SvmError,
>)
    ensures
        match spec_artifact_url(platform, version@, artifact@) {
            Ok(url) => r matches Ok(x) && x@ == url,
            Err(e) => r matches Err(x) && x@ == e,
        },
{
    let address = artifact_location(platform, version, artifact)?;
    let read = match parse_url(address.as_str()) {
        Ok(url) => Some(url),
        Err(_) => None,
    };
    resolved_url(address.as_str(), read)
}

/// Whether a version is in range is decided by its numbers and by whether it
/// has a pre-release part or build metadata, not by what these hold: from
/// `1.3.13` on, pre-releases of `1.3.13` left out, and up to `1.4.1`, anything
/// built on top of `1.4.1` left out.
pub proof fn lemma_range_by_numbers(p: Platform, v: VersionView)
    ensures
        !version_lt(v, spec_min_version(p)) <==> {
            ||| v.major > 1
            ||| v.major == 1 && v.minor > 3
            ||| v.major == 1 && v.minor == 3 && v.patch > 13
            ||| v.major == 1 && v.minor == 3 && v.patch == 13 && v.pre.len() == 0
        },
        version_le(v, VersionView::release(1, 4, 1)) <==> {
            ||| v.major < 1
            ||| v.major == 1 && v.minor < 4
            ||| v.major == 1 && v.minor == 4 && v.patch < 1
            ||| v.major == 1 && v.minor == 4 && v.patch == 1 && (v.pre.len() > 0 || v.build.len()
                == 0)
        },
{
}

/// Plain bytes stand in a path segment as they are.
proof fn lemma_plain_bytes_are_kept(bytes: Seq<u8>)
    requires
        forall|i: int| 0 <= i < bytes.len() ==> is_plain_byte(#[trigger] bytes[i]),
    ensures
        encoded_bytes(bytes).len() == bytes.len(),
        forall|i: int| 0 <= i < bytes.len() ==> #[trigger] encoded_bytes(bytes)[i] == bytes[i] as char,
    decreases bytes.len(),
{
    if bytes.len() > 0 {
        assert(is_plain_byte(bytes.last()));
        lemma_plain_bytes_are_kept(bytes.drop_last());
    }
}

/// A name of letters, digits and `-`, `.`, `_`, `+`, `~` is its own path segment.
pub proof fn lemma_plain_name_is_kept(name: Seq<char>)
    requires
        is_plain_name(name),
    ensures
        spec_path_segment(name) == name,
{
    assert(is_ascii_chars(name));
    is_ascii_chars_encode_utf8(name);
    let bytes = encode_utf8(name);
    assert forall|i: int| 0 <= i < bytes.len() implies is_plain_byte(#[trigger] bytes[i]) by {
        assert(name[i] as u8 == bytes[i]);
    }
    lemma_plain_bytes_are_kept(bytes);
    assert forall|i: int| 0 <= i < name.len() implies spec_path_segment(name)[i] == name[i] by {
        assert(name[i] as u8 == bytes[i]);
        assert((name[i] as u8) as char == name[i]);
    }
    assert(spec_path_segment(name) =~= name);
}

/// A path segment holds only plain characters and `%`: no slash, question
/// mark, number sign, backslash or space that would end or divide the path.
pub proof fn lemma_path_segment_is_one_segment(name: Seq<char>)
    ensures
        forall|i: int|
            0 <= i < spec_path_segment(name).len() ==> is_segment_char(
                #[trigger] spec_path_segment(name)[i],
            ),
{
    lemma_encoded_bytes_are_segment_chars(encode_utf8(name));
}

/// Encoded bytes are plain characters and `%`.
proof fn lemma_encoded_bytes_are_segment_chars(bytes: Seq<u8>)
    ensures
        forall|i: int|
            0 <= i < encoded_bytes(bytes).len() ==> is_segment_char(#[trigger] encoded_bytes(bytes)[i]),
    decreases bytes.len(),
{
    if bytes.len() > 0 {
        lemma_encoded_bytes_are_segment_chars(bytes.drop_last());
        let before = encoded_bytes(bytes.drop_last());
        let last = encoded_byte(bytes.last());
        assert forall|k: int| 0 <= k < last.len() implies is_segment_char(#[trigger] last[k]) by {
            let b = bytes.last();
            assert(is_segment_char(upper_hex_digit(b as int / 16)));
            assert(is_segment_char(upper_hex_digit(b as int % 16)));
            if is_plain_byte(b) {
                assert(is_segment_char(b as char));
            }
        }
        assert forall|i: int| 0 <= i < encoded_bytes(bytes).len() implies is_segment_char(
            #[trigger] encoded_bytes(bytes)[i],
        ) by {
            if i < before.len() {
                assert(encoded_bytes(bytes)[i] == before[i]);
            } else {
                assert(encoded_bytes(bytes)[i] == last[i - before.len()]);
            }
        }
    }
}

/// Within a platform's range the address of an artifact begins with the
/// platform's place and ends with the artifact's name as a path segment,
/// which for a name of plain characters is the name itself; and where `url`
/// leaves the address as it is, so does the URL.
pub proof fn lemma_url_in_range(p: Platform, v: VersionView, artifact: Seq<char>)
    requires
        spec_in_range(p, v),
    ensures
        spec_artifact_location(p, v, artifact) matches Ok(address) && {
            &&& begins_with(address, spec_url_prefix(p))
            &&& ends_with(address, spec_path_segment(artifact))
            &&& is_plain_name(artifact) ==> ends_with(address, artifact)
            &&& url_serialization(address) == Some(address) ==> spec_artifact_url(p, v, artifact)
                == Ok::<Seq<char>, SvmErrorView>(address)
        },
{
    let segment = spec_path_segment(artifact);
    let address = spec_url_prefix(p) + seq!['/'] + segment;
    assert(address.subrange(0, spec_url_prefix(p).len() as int) =~= spec_url_prefix(p));
    assert(address.subrange(address.len() - segment.len(), address.len() as int) =~= segment);
    if is_plain_name(artifact) {
        lemma_plain_name_is_kept(artifact);
    }
}

/// A version older than the oldest that a platform is served with is refused
/// for every platform, before any URL is made.
pub proof fn lemma_below_minimum_refused(p: Platform, v: VersionView, artifact: Seq<char>)
    requires
        version_lt(v, spec_min_version(p)),
    ensures
        spec_artifact_location(p, v, artifact) == Err::<Seq<char>, SvmErrorView>(
            SvmErrorView::UnsupportedVersion(v.text(), p.spec_tag()),
        ),
        spec_artifact_url(p, v, artifact) == Err::<Seq<char>, SvmErrorView>(
            SvmErrorView::UnsupportedVersion(v.text(), p.spec_tag()),
        ),
{
}

} // verus!
