use zksvm::error::SvmError;
use zksvm::hex_string::{deserialize, same_bytes, serialize, to_hex};
use zksvm::install::{
    begin, check_response, ensure_checksum, install_method, lock_file_name, resolve, step,
    verify_digest, InstallAction, InstallEvent, InstallMethod, InstallState, Phase,
    REQUEST_TIMEOUT_SECS,
};
use zksvm::platform::Platform;
use zksvm::releases::{BuildInfo, Releases};
use zksvm::version::Version;

const ABC_SHA256: &str = "ba7816bf8f01cfea414140de5dae2223b00361a396177a9cb410ff61f20015ad";
const EMPTY_SHA256: &str = "e3b0c44298fc1c149afbf4c8996fb92427ae41e4649b934ca495991b7852b855";
const RAW: &str = "https://github.com/dutterbutter/zksolc-bin/raw/db/generate-list";

fn v(text: &str) -> Version {
    Version::parse(text).unwrap()
}

fn digest(hex: &str) -> Vec<u8> {
    deserialize(hex).unwrap()
}

fn catalog() -> Releases {
    let mut catalog = Releases::new();
    catalog.insert(v("1.3.17"), "zksolc-linux-amd64-v1.3.17".to_string());
    catalog.insert(v("1.3.12"), "zksolc-linux-amd64-v1.3.12".to_string());
    catalog.insert(v("1.3.16"), "zksolc-linux-amd64-v1.3.16".to_string());
    catalog.insert(v("1.3.18"), "zksolc-v1.3.18.zip".to_string());
    catalog.push_build(BuildInfo {
        version: v("1.3.17"),
        sha256: digest(ABC_SHA256),
    });
    catalog.push_build(BuildInfo {
        version: v("1.3.12"),
        sha256: digest(ABC_SHA256),
    });
    catalog.push_build(BuildInfo {
        version: v("1.3.15"),
        sha256: digest(ABC_SHA256),
    });
    catalog.push_build(BuildInfo {
        version: v("1.3.18"),
        sha256: digest(EMPTY_SHA256),
    });
    catalog
}

#[test]
fn hex_round_trip() {
    let bytes: Vec<u8> = (0..=255).collect();
    let text = serialize(&bytes);
    assert!(text.starts_with("0x000102"));
    assert!(text.ends_with("fdfeff"));
    assert_eq!(text.len(), 2 + 512);
    assert_eq!(deserialize(&text), Ok(bytes.clone()));
    assert_eq!(deserialize(&to_hex(&bytes)), Ok(bytes));
    assert_eq!(serialize(&[]), "0x");
    assert_eq!(deserialize("0x"), Ok(vec![]));
    assert_eq!(deserialize(""), Ok(vec![]));
}

#[test]
fn hex_is_lowercase_two_digits_a_byte() {
    assert_eq!(to_hex(&[1, 2, 3, 15, 16]), "0102030f10");
    assert_eq!(serialize(&[1, 2, 3, 15, 16]), "0x0102030f10");
    assert_eq!(to_hex(&[0xab, 0xcd, 0xef]), "abcdef");
}

#[test]
fn hex_reads_either_case_and_prefix() {
    assert_eq!(deserialize("0xABcdEF"), Ok(vec![0xab, 0xcd, 0xef]));
    assert_eq!(deserialize("0Xabcdef"), Ok(vec![0xab, 0xcd, 0xef]));
    assert_eq!(deserialize("abcdef"), Ok(vec![0xab, 0xcd, 0xef]));
    assert_eq!(deserialize("00ff"), Ok(vec![0, 255]));
}

#[test]
fn hex_refuses_what_stands_for_no_bytes() {
    for text in ["abc", "0xabc", "zz", "0xzz", "0x0xab", "ab cd", "x0ab", "0", "ab\n", "äb"] {
        assert_eq!(
            deserialize(text),
            Err(SvmError::CatalogParse(text.to_string())),
            "{text:?}"
        );
    }
}

#[test]
fn same_bytes_compares_byte_for_byte() {
    assert!(same_bytes(&[], &[]));
    assert!(same_bytes(&[1, 2, 3], &[1, 2, 3]));
    assert!(!same_bytes(&[1, 2, 3], &[1, 2, 4]));
    assert!(!same_bytes(&[1, 2, 3], &[1, 2]));
    assert!(!same_bytes(&[], &[0]));
}

#[test]
fn a_refusal_shows_the_digest_in_64_digits() {
    for payload in [&b""[..], b"abc", &[0u8; 300]] {
        match ensure_checksum(payload, &v("1.3.17"), &[]) {
            Err(SvmError::ChecksumMismatch { expected, actual, .. }) => {
                assert_eq!(expected, "");
                assert_eq!(actual.len(), 64);
            }
            other => panic!("{other:?}"),
        }
    }
}

#[test]
fn right_checksum_passes() {
    assert_eq!(ensure_checksum(b"abc", &v("1.3.17"), &digest(ABC_SHA256)), Ok(()));
    assert_eq!(ensure_checksum(b"", &v("1.3.17"), &digest(EMPTY_SHA256)), Ok(()));
}

#[test]
fn one_flipped_bit_fails_with_both_digests() {
    let right = digest(ABC_SHA256);
    for byte in 0..right.len() {
        for bit in 0..8 {
            let mut wrong = right.clone();
            wrong[byte] ^= 1 << bit;
            assert_eq!(
                ensure_checksum(b"abc", &v("1.3.17"), &wrong),
                Err(SvmError::ChecksumMismatch {
                    version: "1.3.17".to_string(),
                    expected: to_hex(&wrong),
                    actual: ABC_SHA256.to_string(),
                })
            );
        }
    }
}

#[test]
fn other_bytes_fail() {
    assert_eq!(
        ensure_checksum(b"abd", &v("1.4.0-rc.1"), &digest(ABC_SHA256)),
        Err(SvmError::ChecksumMismatch {
            version: "1.4.0-rc.1".to_string(),
            expected: ABC_SHA256.to_string(),
            actual: "a52d159f262b2c6ddb724a61840befc36eb30c88877a4030b65cbe86298449c9"
                .to_string(),
        })
    );
    assert!(ensure_checksum(b"abc", &v("1.3.17"), &[]).is_err());
    assert!(ensure_checksum(b"abc", &v("1.3.17"), &digest(ABC_SHA256)[..31]).is_err());
}

#[test]
fn verify_digest_compares_what_it_is_given() {
    assert_eq!(verify_digest(&[1, 2], &v("1.3.17"), &[1, 2]), Ok(()));
    assert_eq!(
        verify_digest(&[1, 2], &v("1.3.17"), &[1, 3]),
        Err(SvmError::ChecksumMismatch {
            version: "1.3.17".to_string(),
            expected: "0103".to_string(),
            actual: "0102".to_string(),
        })
    );
}

#[test]
fn success_is_any_2xx() {
    for status in [200u16, 201, 204, 206, 299] {
        assert_eq!(check_response("https://a/b", status), Ok(()));
    }
    for status in [0u16, 100, 199, 300, 301, 304, 404, 500, 503, 999, u16::MAX] {
        assert_eq!(
            check_response("https://a/b", status),
            Err(SvmError::UnsuccessfulResponse("https://a/b".to_string(), status))
        );
    }
}

#[test]
fn lock_file_is_named_by_version() {
    assert_eq!(lock_file_name(&v("1.3.17")), ".lock-zksolc-1.3.17");
    assert_eq!(lock_file_name(&v("1.4.0-rc.1")), ".lock-zksolc-1.4.0-rc.1");
    assert_ne!(lock_file_name(&v("1.3.17")), lock_file_name(&v("1.3.16")));
}

#[test]
fn only_windows_archives_are_unpacked() {
    assert_eq!(
        install_method(Platform::WindowsAmd64, "zksolc-windows-amd64-v1.3.17.zip"),
        InstallMethod::Archive
    );
    assert_eq!(install_method(Platform::WindowsAmd64, ".zip"), InstallMethod::Archive);
    assert_eq!(
        install_method(Platform::WindowsAmd64, "zksolc-windows-amd64-v1.3.17.exe"),
        InstallMethod::Binary
    );
    assert_eq!(install_method(Platform::WindowsAmd64, "zip"), InstallMethod::Binary);
    assert_eq!(install_method(Platform::WindowsAmd64, ""), InstallMethod::Binary);
    assert_eq!(install_method(Platform::WindowsAmd64, "a.ZIP"), InstallMethod::Binary);
    assert_eq!(install_method(Platform::WindowsAmd64, "a.zip.sig"), InstallMethod::Binary);
    for platform in [
        Platform::LinuxAmd64,
        Platform::LinuxAarch64,
        Platform::MacOsAmd64,
        Platform::MacOsAarch64,
        Platform::Other,
    ] {
        assert_eq!(install_method(platform, "zksolc.zip"), InstallMethod::Binary);
    }
}

#[test]
fn resolve_gives_what_to_fetch() {
    let reference = resolve(&catalog(), Platform::LinuxAmd64, &v("1.3.17")).unwrap();
    assert_eq!(reference.platform, Platform::LinuxAmd64);
    assert_eq!(reference.version, v("1.3.17"));
    assert_eq!(reference.artifact, "zksolc-linux-amd64-v1.3.17");
    assert_eq!(reference.url, format!("{RAW}/linux-amd64/zksolc-linux-amd64-v1.3.17"));
    assert_eq!(reference.checksum, digest(ABC_SHA256));
}

#[test]
fn resolve_fails_on_what_the_catalog_lacks() {
    let catalog = catalog();
    let error = |text: &str| resolve(&catalog, Platform::LinuxAmd64, &v(text)).unwrap_err();
    assert_eq!(error("1.3.14"), SvmError::UnknownVersion);
    assert_eq!(error("1.3.16"), SvmError::UnknownVersion);
    assert_eq!(error("1.3.15"), SvmError::UnknownVersion);
    assert_eq!(
        error("1.3.12"),
        SvmError::UnsupportedVersion("1.3.12".to_string(), "linux-amd64".to_string())
    );
    assert_eq!(
        resolve(&Releases::new(), Platform::LinuxAmd64, &v("1.3.17")).unwrap_err(),
        SvmError::UnknownVersion
    );
}

fn advance(
    platform: Platform,
    version: &Version,
    state: InstallState,
    event: InstallEvent,
) -> (InstallState, InstallAction) {
    step(platform, version, state, event)
}

#[test]
fn an_installation_runs_through_its_steps() {
    let version = v("1.3.17");
    let platform = Platform::LinuxAmd64;
    let state = begin();
    assert_eq!(state.phase(), Phase::Resolving);
    assert!(state.reference().is_none());

    let (state, action) = advance(platform, &version, state, InstallEvent::Catalog(catalog()));
    assert_eq!(state.phase(), Phase::Requesting);
    match action {
        InstallAction::Download { url, timeout_secs } => {
            assert_eq!(url, format!("{RAW}/linux-amd64/zksolc-linux-amd64-v1.3.17"));
            assert_eq!(timeout_secs, 120);
            assert_eq!(timeout_secs, REQUEST_TIMEOUT_SECS);
        }
        other => panic!("{other:?}"),
    }

    assert_eq!(state.reference().unwrap().artifact, "zksolc-linux-amd64-v1.3.17");
    let (state, action) = advance(platform, &version, state, InstallEvent::Response(200));
    assert_eq!(state.phase(), Phase::Receiving);
    assert!(matches!(action, InstallAction::ReadBody));

    let (state, action) = advance(platform, &version, state, InstallEvent::Body(b"abc".to_vec()));
    assert_eq!(state.phase(), Phase::Locking);
    match action {
        InstallAction::AcquireLock { file_name } => assert_eq!(file_name, ".lock-zksolc-1.3.17"),
        other => panic!("{other:?}"),
    }

    let (state, action) = advance(platform, &version, state, InstallEvent::LockAcquired);
    assert_eq!(state.phase(), Phase::Writing);
    match action {
        InstallAction::Write { method, payload } => {
            assert_eq!(method, InstallMethod::Binary);
            assert_eq!(payload, b"abc".to_vec());
        }
        other => panic!("{other:?}"),
    }

    let (state, action) = advance(platform, &version, state, InstallEvent::Written);
    assert_eq!(state.phase(), Phase::Finished);
    assert!(matches!(action, InstallAction::Done));
}

#[test]
fn an_unknown_version_ends_the_installation() {
    let (state, action) = advance(
        Platform::LinuxAmd64,
        &v("1.3.14"),
        begin(),
        InstallEvent::Catalog(catalog()),
    );
    assert_eq!(state.phase(), Phase::Finished);
    match action {
        InstallAction::Fail(e) => assert_eq!(e, SvmError::UnknownVersion),
        other => panic!("{other:?}"),
    }
}

#[test]
fn an_unsuccessful_answer_ends_the_installation() {
    let version = v("1.3.17");
    let platform = Platform::LinuxAmd64;
    let (state, _) = advance(platform, &version, begin(), InstallEvent::Catalog(catalog()));
    let (state, action) = advance(platform, &version, state, InstallEvent::Response(404));
    assert_eq!(state.phase(), Phase::Finished);
    match action {
        InstallAction::Fail(e) => assert_eq!(
            e,
            SvmError::UnsuccessfulResponse(
                format!("{RAW}/linux-amd64/zksolc-linux-amd64-v1.3.17"),
                404
            )
        ),
        other => panic!("{other:?}"),
    }
}

#[test]
fn a_wrong_payload_is_never_written() {
    let version = v("1.3.17");
    let platform = Platform::LinuxAmd64;
    let (state, _) = advance(platform, &version, begin(), InstallEvent::Catalog(catalog()));
    let (state, _) = advance(platform, &version, state, InstallEvent::Response(200));
    let (state, action) = advance(platform, &version, state, InstallEvent::Body(b"abd".to_vec()));
    assert_eq!(state.phase(), Phase::Finished);
    match action {
        InstallAction::Fail(SvmError::ChecksumMismatch {
            version,
            expected,
            actual,
        }) => {
            assert_eq!(version, "1.3.17");
            assert_eq!(expected, ABC_SHA256);
            assert_ne!(actual, ABC_SHA256);
            assert_eq!(actual.len(), 64);
        }
        other => panic!("{other:?}"),
    }
    let (state, action) = advance(platform, &version, state, InstallEvent::LockAcquired);
    assert_eq!(state.phase(), Phase::Finished);
    assert!(matches!(action, InstallAction::Reject));
}

#[test]
fn events_out_of_turn_are_rejected() {
    let version = v("1.3.17");
    let platform = Platform::LinuxAmd64;
    let (state, action) = advance(platform, &version, begin(), InstallEvent::Written);
    assert_eq!(state.phase(), Phase::Resolving);
    assert!(matches!(action, InstallAction::Reject));
    let (state, action) = advance(platform, &version, state, InstallEvent::Body(b"abc".to_vec()));
    assert_eq!(state.phase(), Phase::Resolving);
    assert!(matches!(action, InstallAction::Reject));
    let (state, _) = advance(platform, &version, state, InstallEvent::Catalog(catalog()));
    let (state, action) = advance(platform, &version, state, InstallEvent::LockAcquired);
    assert_eq!(state.phase(), Phase::Requesting);
    assert!(matches!(action, InstallAction::Reject));
    let (state, _) = advance(platform, &version, state, InstallEvent::Response(204));
    let (state, action) = advance(platform, &version, state, InstallEvent::Written);
    assert_eq!(state.phase(), Phase::Receiving);
    assert!(matches!(action, InstallAction::Reject));
}

#[test]
fn a_windows_archive_is_unpacked() {
    let version = v("1.3.18");
    let platform = Platform::WindowsAmd64;
    let (state, _) = advance(platform, &version, begin(), InstallEvent::Catalog(catalog()));
    let (state, _) = advance(platform, &version, state, InstallEvent::Response(200));
    let (state, _) = advance(platform, &version, state, InstallEvent::Body(Vec::new()));
    let (_, action) = advance(platform, &version, state, InstallEvent::LockAcquired);
    match action {
        InstallAction::Write { method, payload } => {
            assert_eq!(method, InstallMethod::Archive);
            assert!(payload.is_empty());
        }
        other => panic!("{other:?}"),
    }
}
