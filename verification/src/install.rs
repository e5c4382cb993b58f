//! The decisions of an installation: what to fetch, whether the answer and
//! the bytes are good, and when the binary may be written.
//!
//! Fetching, locking and writing are done by the caller. It hands each
//! outcome to `step` and does what `step` answers, so that no payload reaches
//! the disk before its checksum was found right and the version's lock is held.

use sha2::Digest;
use vstd::prelude::*;
use vstd::string::*;
use crate::error::{SvmError, SvmErrorView};
use crate::hex_string::{hex_text, same_bytes, to_hex};
use crate::locator::{artifact_url, ends_with, spec_artifact_url};
use crate::platform::{same_text, Platform};
use crate::releases::{Releases, ReleasesView};
use crate::version::{Version, VersionView};

verus! {

/// The SHA-256 digest of a sequence of bytes.
pub uninterp spec fn sha256(data: Seq<u8>) -> Seq<u8>;

/// Calls `sha2::Sha256::digest`: the SHA-256 digest of the bytes, which has
/// 32 bytes.
#[verifier::external_body]
fn sha256_digest(data: &[u8]) -> (r: Vec<u8>)
    ensures
        r@ == sha256(data@),
        r@.len() == 32,
{
    sha2::Sha256::digest(data).to_vec()
}

/// The seconds after which a download is given up.
pub const REQUEST_TIMEOUT_SECS: u64 = 120;

/// The verdict on a digest: it is the expected one, or the mismatch with the
/// version and both digests in lowercase hexadecimal.
pub open spec fn spec_verify_digest(
    actual: Seq<u8>,
    version: VersionView,
    expected: Seq<u8>,
) -> Result<(), SvmErrorView> {
    if actual == expected {
        Ok(())
    } else {
        Err(
            SvmErrorView::ChecksumMismatch {
                version: version.text(),
                expected: hex_text(expected),
                actual: hex_text(actual),
            },
        )
    }
}

/// Holds a digest against the expected checksum.
pub fn verify_digest(actual: &[u8], version: &Version, expected: &[u8]) -> (r: Result<
    (),
    SvmError,
>)
    ensures
        match spec_verify_digest(actual@, version@, expected@) {
            Ok(_) => r is Ok,
            Err(e) => r matches Err(x) && x@ == e,
        },
{
    if same_bytes(actual, expected) {
        Ok(())
    } else {
        Err(
            SvmError::ChecksumMismatch {
                version: version.to_string(),
                expected: to_hex(expected),
                actual: to_hex(actual),
            },
        )
    }
}

/// A checksum that differs from the digest in a single bit is refused, and
/// the refusal names the version and shows both in lowercase hexadecimal.
pub proof fn lemma_flipped_bit_fails(digest: Seq<u8>, version: VersionView, at: int, bit: u8)
    requires
        0 <= at < digest.len(),
        bit < 8,
    ensures
        spec_verify_digest(digest, version, digest.update(at, digest[at] ^ (1u8 << bit))) == Err::<
            (),
            SvmErrorView,
        >(
            SvmErrorView::ChecksumMismatch {
                version: version.text(),
                expected: hex_text(digest.update(at, digest[at] ^ (1u8 << bit))),
                actual: hex_text(digest),
            },
        ),
{
    let byte = digest[at];
    assert(byte ^ (1u8 << bit) != byte) by (bit_vector)
        requires
            bit < 8,
    ;
}

/// Hashes the downloaded bytes and holds the digest against the published
/// checksum. Bytes pass if and only if their SHA-256 digest is the checksum.
/// The digest has 32 bytes, so a refusal shows it in 64 hexadecimal digits.
pub fn ensure_checksum(binbytes: &[u8], version: &Version, expected_checksum: &[u8]) -> (r: Result<
    (),
    SvmError,
>)
    ensures
        match spec_verify_digest(sha256(binbytes@), version@, expected_checksum@) {
            Ok(_) => r is Ok,
            Err(e) => r matches Err(x) && x@ == e,
        },
        sha256(binbytes@).len() == 32,
        hex_text(sha256(binbytes@)).len() == 64,
{
    let digest = sha256_digest(binbytes);
    verify_digest(digest.as_slice(), version, expected_checksum)
}

/// Whether a status of HTTP reports success: 200 to 299.
pub open spec fn is_success(status: u16) -> bool {
    200 <= status <= 299
}

/// Accepts the answer to a download if its status reports success, and
/// reports the URL and the status otherwise.
pub fn check_response(url: &str, status: u16) -> (r: Result<(), SvmError>)
    ensures
        is_success(status) ==> r is Ok,
        !is_success(status) ==> (r matches Err(e) && e@ == SvmErrorView::UnsuccessfulResponse(
            url@,
            status,
        )),
{
    if 200 <= status && status <= 299 {
        Ok(())
    } else {
        Err(SvmError::UnsuccessfulResponse(String::from_str(url), status))
    }
}

/// The name of the file that is locked while a version is written.
pub fn lock_file_name(version: &Version) -> (r: String)
    ensures
        r@ == ".lock-zksolc-"@ + version@.text(),
{
    let mut s = String::from_str(".lock-zksolc-");
    s.append(version.to_string().as_str());
    s
}

/// How a payload becomes the installed binary.
#[derive(Clone, Copy, Debug, PartialEq, Eq, Structural)]
pub enum InstallMethod {
    /// The payload is the executable: it is written as it is.
    Binary,
    /// The payload is a zip archive: it is unpacked, and the executable in it
    /// is moved to the binary's place.
    Archive,
}

/// Only Windows releases come as archives, and only those whose artifact is named so.
pub open spec fn spec_install_method(p: Platform, artifact: Seq<char>) -> InstallMethod {
    if p == Platform::WindowsAmd64 && ends_with(artifact, ".zip"@) {
        InstallMethod::Archive
    } else {
        InstallMethod::Binary
    }
}

/// How the payload of an artifact becomes the installed binary.
pub fn install_method(platform: Platform, artifact: &str) -> (r: InstallMethod)
    ensures
        r == spec_install_method(platform, artifact@),
{
    proof {
        reveal_strlit(".zip");
    }
    match platform {
        Platform::WindowsAmd64 => {
            let n = artifact.unicode_len();
            if n >= 4 && same_text(artifact.substring_char(n - 4, n), ".zip") {
                InstallMethod::Archive
            } else {
                InstallMethod::Binary
            }
        },
        _ => InstallMethod::Binary,
    }
}

/// What is fetched for one version: where from, under which name, and the
/// checksum that the bytes must have.
#[derive(Debug)]
pub struct ArtifactReference {
    pub platform: Platform,
    pub version: Version,
    pub artifact: String,
    pub url: String,
    pub checksum: Vec<u8>,
}

/// An artifact reference as plain values.
pub struct ArtifactReferenceView {
    pub platform: Platform,
    pub version: VersionView,
    pub artifact: Seq<char>,
    pub url: Seq<char>,
    pub checksum: Seq<u8>,
}

impl View for ArtifactReference {
    type V = ArtifactReferenceView;

    open spec fn view(&self) -> ArtifactReferenceView {
        ArtifactReferenceView {
            platform: self.platform,
            version: self.version@,
            artifact: self.artifact@,
            url: self.url@,
            checksum: self.checksum@,
        }
    }
}

/// What a catalog gives for a version: unknown if the catalog lacks its
/// artifact name or its checksum, refused if the platform is not served with
/// it, and else the reference to fetch.
pub open spec fn spec_resolve(catalog: ReleasesView, p: Platform, v: VersionView) -> Result<
    ArtifactReferenceView,
    SvmErrorView,
> {
    match (catalog.artifact(v), catalog.checksum(v)) {
        (Some(artifact), Some(checksum)) => match spec_artifact_url(p, v, artifact) {
            Ok(url) => Ok(ArtifactReferenceView { platform: p, version: v, artifact, url, checksum }),
            Err(e) => Err(e),
        },
        _ => Err(SvmErrorView::UnknownVersion),
    }
}

/// Looks a version up in the catalog of a platform and says what to fetch.
pub fn resolve(catalog: &Releases, platform: Platform, version: &Version) -> (r: Result<
    ArtifactReference,
    SvmError,
>)
    ensures
        match spec_resolve(catalog@, platform, version@) {
            Ok(reference) => r matches Ok(x) && x@ == reference,
            Err(e) => r matches Err(x) && x@ == e,
        },
{
    let artifact = match catalog.get_artifact(version) {
        Some(name) => name.clone(),
        None => {
            return Err(SvmError::UnknownVersion);
        },
    };
    let checksum = match catalog.get_checksum(version) {
        Some(sum) => sum,
        None => {
            return Err(SvmError::UnknownVersion);
        },
    };
    let url = artifact_url(platform, version, artifact.as_str())?;
    Ok(ArtifactReference { platform, version: version.clone(), artifact, url, checksum })
}

/// How far an installation has come.
#[derive(Clone, Copy, Debug, PartialEq, Eq, Structural)]
pub enum Phase {
    /// The platform's catalog was asked for.
    Resolving,
    /// The artifact was asked for.
    Requesting,
    /// The download answered with success; its body is being read.
    Receiving,
    /// The payload has the published checksum; the version's lock was asked for.
    Locking,
    /// The lock is held and the payload is being written.
    Writing,
    /// Nothing is left to do: the version is installed, or the installation failed.
    Finished,
}

#[derive(Debug)]
enum Stage {
    Resolving,
    Requesting(ArtifactReference),
    Receiving(ArtifactReference),
    Locking(ArtifactReference, Vec<u8>),
    Writing(ArtifactReference),
    Finished,
}

/// An installation under way. Only `begin` and `step` make one, so that a
/// payload waits for the lock only if its digest is the published checksum.
#[derive(Debug)]
pub struct InstallState {
    stage: Stage,
}

/// What the caller comes back with.
#[derive(Debug)]
pub enum InstallEvent {
    /// The catalog of the platform.
    Catalog(Releases),
    /// The status with which the download answered.
    Response(u16),
    /// The whole body of the answer.
    Body(Vec<u8>),
    /// The version's lock is held by this installation.
    LockAcquired,
    /// The binary is in its place.
    Written,
}

/// What the caller does next.
#[derive(Debug)]
pub enum InstallAction {
    /// Send a GET request to the URL and give up after so many seconds.
    Download { url: String, timeout_secs: u64 },
    /// Read the body of the answer.
    ReadBody,
    /// Create the file of this name in the data directory and lock it,
    /// waiting for whoever holds it.
    AcquireLock { file_name: String },
    /// Make the payload the version's binary, then release and remove the lock.
    Write { method: InstallMethod, payload: Vec<u8> },
    /// The version is installed.
    Done,
    /// The installation failed, before anything of the payload was written.
    Fail(SvmError),
    /// The event does not belong to the state, which is kept.
    Reject,
}

impl InstallState {
    /// How far the installation has come.
    pub closed spec fn spec_phase(&self) -> Phase {
        match self.stage {
            Stage::Resolving => Phase::Resolving,
            Stage::Requesting(_) => Phase::Requesting,
            Stage::Receiving(_) => Phase::Receiving,
            Stage::Locking(_, _) => Phase::Locking,
            Stage::Writing(_) => Phase::Writing,
            Stage::Finished => Phase::Finished,
        }
    }

    /// What is being fetched, from the catalog's answer on until the end.
    pub closed spec fn spec_reference(&self) -> Option<ArtifactReferenceView> {
        match self.stage {
            Stage::Requesting(r) => Some(r@),
            Stage::Receiving(r) => Some(r@),
            Stage::Locking(r, _) => Some(r@),
            Stage::Writing(r) => Some(r@),
            _ => None,
        }
    }

    /// The payload that waits for the lock.
    pub closed spec fn spec_payload(&self) -> Option<Seq<u8>> {
        match self.stage {
            Stage::Locking(_, payload) => Some(payload@),
            _ => None,
        }
    }

    /// Holds of every installation under way: there is something to fetch
    /// exactly between the catalog's answer and the end, and a payload waits
    /// for the lock only if its digest is the published checksum.
    pub open spec fn wf(&self) -> bool {
        &&& self.spec_reference() is Some <==> !(self.spec_phase() is Resolving
            || self.spec_phase() is Finished)
        &&& self.spec_payload() is Some <==> self.spec_phase() is Locking
        &&& self.spec_payload() matches Some(payload) ==> sha256(payload) == self.spec_reference()->0.checksum
    }

    /// Holds of every installation under way.
    #[verifier::type_invariant]
    pub open spec fn inv(&self) -> bool {
        self.wf()
    }

    /// How far the installation has come.
    #[verifier::when_used_as_spec(spec_phase)]
    pub fn phase(&self) -> (r: Phase)
        ensures
            r == self.spec_phase(),
    {
        match &self.stage {
            Stage::Resolving => Phase::Resolving,
            Stage::Requesting(_) => Phase::Requesting,
            Stage::Receiving(_) => Phase::Receiving,
            Stage::Locking(_, _) => Phase::Locking,
            Stage::Writing(_) => Phase::Writing,
            Stage::Finished => Phase::Finished,
        }
    }

    /// What is being fetched, if the catalog has answered and the
    /// installation has not ended.
    pub fn reference(&self) -> (r: Option<&ArtifactReference>)
        ensures
            match self.spec_reference() {
                Some(reference) => r matches Some(x) && x@ == reference,
                None => r is None,
            },
    {
        match &self.stage {
            Stage::Requesting(r) => Some(r),
            Stage::Receiving(r) => Some(r),
            Stage::Locking(r, _) => Some(r),
            Stage::Writing(r) => Some(r),
            _ => None,
        }
    }
}

/// Whether `next` is `state` as it was.
pub open spec fn unchanged(state: InstallState, next: InstallState) -> bool {
    &&& next.spec_phase() == state.spec_phase()
    &&& next.spec_reference() == state.spec_reference()
    &&& next.spec_payload() == state.spec_payload()
}

/// Whether `next` is in `phase` and fetches what `state` fetches.
pub open spec fn moved(state: InstallState, next: InstallState, phase: Phase) -> bool {
    next.spec_phase() == phase && next.spec_reference() == state.spec_reference()
}

/// The rules of an installation: whether `next` and `action` are what
/// follows when `event` arrives in `state`.
pub open spec fn follows(
    platform: Platform,
    version: VersionView,
    state: InstallState,
    event: InstallEvent,
    next: InstallState,
    action: InstallAction,
) -> bool {
    let reference = state.spec_reference()->0;
    match (state.spec_phase(), event) {
        (Phase::Resolving, InstallEvent::Catalog(catalog)) => match spec_resolve(
            catalog@,
            platform,
            version,
        ) {
            Ok(found) => {
                &&& next.spec_phase() is Requesting
                &&& next.spec_reference() == Some(found)
                &&& action matches InstallAction::Download { url, timeout_secs } && url@
                    == found.url && timeout_secs == REQUEST_TIMEOUT_SECS
            },
            Err(e) => next.spec_phase() is Finished && (action matches InstallAction::Fail(x) && x@
                == e),
        },
        (Phase::Requesting, InstallEvent::Response(status)) => if is_success(status) {
            moved(state, next, Phase::Receiving) && action is ReadBody
        } else {
            &&& next.spec_phase() is Finished
            &&& action matches InstallAction::Fail(x) && x@ == SvmErrorView::UnsuccessfulResponse(
                reference.url,
                status,
            )
        },
        (Phase::Receiving, InstallEvent::Body(body)) => match spec_verify_digest(
            sha256(body@),
            reference.version,
            reference.checksum,
        ) {
            Ok(_) => {
                &&& moved(state, next, Phase::Locking)
                &&& next.spec_payload() == Some(body@)
                &&& action matches InstallAction::AcquireLock { file_name } && file_name@
                    == ".lock-zksolc-"@ + reference.version.text()
            },
            Err(e) => next.spec_phase() is Finished && (action matches InstallAction::Fail(x) && x@
                == e),
        },
        (Phase::Locking, InstallEvent::LockAcquired) => {
            &&& moved(state, next, Phase::Writing)
            &&& action matches InstallAction::Write { method, payload } && Some(payload@)
                == state.spec_payload() && method == spec_install_method(
                reference.platform,
                reference.artifact,
            )
        },
        (Phase::Writing, InstallEvent::Written) => next.spec_phase() is Finished && action is Done,
        _ => unchanged(state, next) && action is Reject,
    }
}

/// Begins an installation: the state to start from. The caller fetches the
/// platform's manifest, from the URL that `locator::releases_url` gives, and
/// comes back with the catalog.
pub fn begin() -> (r: InstallState)
    ensures
        r.spec_phase() is Resolving,
        r.wf(),
{
    InstallState { stage: Stage::Resolving }
}

/// Takes the installation of `version` for `platform` one step on: from the
/// state it is in and what the caller comes back with, to the next state and
/// what the caller does next. A payload is handed out for writing only if its
/// digest is the published checksum of what is being fetched.
pub fn step(platform: Platform, version: &Version, state: InstallState, event: InstallEvent) -> (r:
    (InstallState, InstallAction))
    ensures
        follows(platform, version@, state, event, r.0, r.1),
        r.0.wf(),
        r.1 matches InstallAction::Write { payload, .. } ==> sha256(payload@)
            == state.spec_reference()->0.checksum,
{
    proof {
        use_type_invariant(&state);
    }
    match (state.stage, event) {
        (Stage::Resolving, InstallEvent::Catalog(catalog)) => {
            match resolve(&catalog, platform, version) {
                Ok(reference) => {
                    let url = reference.url.clone();
                    (
                        InstallState { stage: Stage::Requesting(reference) },
                        InstallAction::Download { url, timeout_secs: REQUEST_TIMEOUT_SECS },
                    )
                },
                Err(e) => (InstallState { stage: Stage::Finished }, InstallAction::Fail(e)),
            }
        },
        (Stage::Requesting(reference), InstallEvent::Response(status)) => {
            match check_response(reference.url.as_str(), status) {
                Ok(_) => (InstallState { stage: Stage::Receiving(reference) }, InstallAction::ReadBody),
                Err(e) => (InstallState { stage: Stage::Finished }, InstallAction::Fail(e)),
            }
        },
        (Stage::Receiving(reference), InstallEvent::Body(body)) => {
            match ensure_checksum(
                body.as_slice(),
                &reference.version,
                reference.checksum.as_slice(),
            ) {
                Ok(_) => {
                    let file_name = lock_file_name(&reference.version);
                    (
                        InstallState { stage: Stage::Locking(reference, body) },
                        InstallAction::AcquireLock { file_name },
                    )
                },
                Err(e) => (InstallState { stage: Stage::Finished }, InstallAction::Fail(e)),
            }
        },
        (Stage::Locking(reference, payload), InstallEvent::LockAcquired) => {
            let method = install_method(reference.platform, reference.artifact.as_str());
            (
                InstallState { stage: Stage::Writing(reference) },
                InstallAction::Write { method, payload },
            )
        },
        (Stage::Writing(_), InstallEvent::Written) => (
            InstallState { stage: Stage::Finished },
            InstallAction::Done,
        ),
        (stage, _) => (InstallState { stage }, InstallAction::Reject),
    }
}

/// A payload is handed out for writing only in answer to the lock, and only
/// the payload that waited for it, whose digest is the published checksum. A
/// payload comes to wait for the lock only as the body of the answer, and
/// only if its digest is the published checksum.
pub proof fn lemma_write_needs_checksum_and_lock(
    platform: Platform,
    version: VersionView,
    state: InstallState,
    event: InstallEvent,
    next: InstallState,
    action: InstallAction,
)
    requires
        state.wf(),
        follows(platform, version, state, event, next, action),
    ensures
        action matches InstallAction::Write { payload, .. } ==> state.spec_phase() is Locking
            && event is LockAcquired && sha256(payload@) == state.spec_reference()->0.checksum,
        next.spec_phase() is Locking && !(state.spec_phase() is Locking) ==> state.spec_phase()
            is Receiving && (event matches InstallEvent::Body(body) && sha256(body@)
            == state.spec_reference()->0.checksum),
{
}

} // verus!
