use zksvm::commands::{
    becomes_global, is_all, is_yes, standing, GlobalChange, InstallCmd, InstallCmdAction, ListCmd,
    RemoveCmd, RemoveCmdAction, Standing, UseCmd, UseCmdAction,
};
use zksvm::error::SvmError;
use zksvm::version::Version;

fn v(text: &str) -> Version {
    Version::parse(text).unwrap()
}

fn list(texts: &[&str]) -> Vec<Version> {
    texts.iter().map(|t| v(t)).collect()
}

#[test]
fn parse_install() {
    let matches = clap::Command::new("zksvm")
        .arg(
            clap::Arg::new("versions")
                .action(clap::ArgAction::Append)
                .num_args(0..),
        )
        .try_get_matches_from(["zksvm", "1.3.17", "1.3.16"])
        .unwrap();
    let versions: Vec<String> = matches
        .get_many::<String>("versions")
        .unwrap()
        .cloned()
        .collect();
    let args: InstallCmd = InstallCmd { versions };
    assert_eq!(
        args,
        InstallCmd {
            versions: vec!["1.3.17".into(), "1.3.16".into()]
        }
    );
}

#[test]
fn yes_is_one_of_four_answers() {
    for answer in ["y", "Y", "yes", "Yes"] {
        assert!(is_yes(answer));
    }
    for answer in ["", "n", "N", "no", "YES", "yEs", "yes ", " y", "yy", "ye"] {
        assert!(!is_yes(answer), "{answer:?}");
    }
}

#[test]
fn all_in_any_case() {
    for text in ["all", "ALL", "All", "aLl", "alL", "ALl"] {
        assert!(is_all(text));
    }
    for text in ["", "al", "alll", "a11", "all ", "1.3.17", "äll"] {
        assert!(!is_all(text), "{text:?}");
    }
}

#[test]
fn standing_prefers_installed() {
    let installed = list(&["1.3.13", "1.3.14"]);
    let all = list(&["1.3.13", "1.3.14", "1.3.17"]);
    assert_eq!(standing(&v("1.3.13"), &installed, &all), Standing::Installed);
    assert_eq!(standing(&v("1.3.17"), &installed, &all), Standing::Released);
    assert_eq!(standing(&v("1.3.18"), &installed, &all), Standing::Unknown);
    assert_eq!(
        standing(&v("1.0.0"), &list(&["1.0.0"]), &Vec::new()),
        Standing::Installed
    );
}

#[test]
fn first_install_becomes_global() {
    assert!(becomes_global(&None));
    assert!(!becomes_global(&Some(v("1.3.13"))));
}

#[test]
fn install_decides_by_standing() {
    let installed = list(&["1.3.13"]);
    let all = list(&["1.3.13", "1.3.17"]);
    match InstallCmd::decide("1.3.13", &installed, &all) {
        Ok(InstallCmdAction::AskToSetGlobal(x)) => assert_eq!(x, v("1.3.13")),
        other => panic!("{other:?}"),
    }
    match InstallCmd::decide("1.3.17", &installed, &all) {
        Ok(InstallCmdAction::Install(x)) => assert_eq!(x, v("1.3.17")),
        other => panic!("{other:?}"),
    }
    match InstallCmd::decide("1.3.18", &installed, &all) {
        Ok(InstallCmdAction::ReportUnsupported(x)) => assert_eq!(x, v("1.3.18")),
        other => panic!("{other:?}"),
    }
    match InstallCmd::decide("latest", &installed, &all) {
        Err(e) => assert_eq!(e, SvmError::InvalidVersion("latest".to_string())),
        other => panic!("{other:?}"),
    }
}

#[test]
fn use_decides_by_standing() {
    let installed = list(&["1.3.13"]);
    let all = list(&["1.3.13", "1.3.17"]);
    let cmd = |text: &str| UseCmd {
        version: text.to_string(),
    };
    match cmd("1.3.13").decide(&installed, &all) {
        Ok(UseCmdAction::SetGlobal(x)) => assert_eq!(x, v("1.3.13")),
        other => panic!("{other:?}"),
    }
    match cmd("1.3.17").decide(&installed, &all) {
        Ok(UseCmdAction::AskToInstall(x)) => assert_eq!(x, v("1.3.17")),
        other => panic!("{other:?}"),
    }
    match cmd("1.3.18").decide(&installed, &all) {
        Ok(UseCmdAction::ReportUnsupported(x)) => assert_eq!(x, v("1.3.18")),
        other => panic!("{other:?}"),
    }
    match cmd("1.3").decide(&installed, &all) {
        Err(e) => assert_eq!(e, SvmError::InvalidVersion("1.3".to_string())),
        other => panic!("{other:?}"),
    }
}

#[test]
fn remove_decides_by_target() {
    let installed = list(&["1.3.13", "1.3.17"]);
    let cmd = |text: &str| RemoveCmd {
        version: text.to_string(),
    };
    assert!(matches!(
        cmd("ALL").decide(&installed),
        Ok(RemoveCmdAction::RemoveAll)
    ));
    assert!(matches!(
        cmd("all").decide(&Vec::new()),
        Ok(RemoveCmdAction::RemoveAll)
    ));
    match cmd("1.3.17").decide(&installed) {
        Ok(RemoveCmdAction::AskToRemove(x)) => assert_eq!(x, v("1.3.17")),
        other => panic!("{other:?}"),
    }
    match cmd("1.3.14").decide(&installed) {
        Ok(RemoveCmdAction::ReportNotFound(x)) => assert_eq!(x, v("1.3.14")),
        other => panic!("{other:?}"),
    }
    match cmd("everything").decide(&installed) {
        Err(e) => assert_eq!(e, SvmError::InvalidVersion("everything".to_string())),
        other => panic!("{other:?}"),
    }
}

fn after(installed: &[&str], current: Option<&str>, removed: &str) -> GlobalChange {
    RemoveCmd::global_after_removal(&list(installed), &current.map(v), &v(removed))
}

#[test]
fn removing_the_global_version_hands_on_to_the_last_left() {
    match after(&["1.3.13", "1.3.14", "1.3.17"], Some("1.3.14"), "1.3.14") {
        GlobalChange::Replace(x) => assert_eq!(x, v("1.3.17")),
        other => panic!("{other:?}"),
    }
    match after(&["1.3.13", "1.3.14", "1.3.17"], Some("1.3.17"), "1.3.17") {
        GlobalChange::Replace(x) => assert_eq!(x, v("1.3.14")),
        other => panic!("{other:?}"),
    }
    match after(&["1.3.13", "1.3.14"], Some("1.3.13"), "1.3.13") {
        GlobalChange::Replace(x) => assert_eq!(x, v("1.3.14")),
        other => panic!("{other:?}"),
    }
    assert!(matches!(
        after(&["1.3.13"], Some("1.3.13"), "1.3.13"),
        GlobalChange::Unset
    ));
}

#[test]
fn removing_another_version_keeps_the_global_one() {
    assert!(matches!(
        after(&["1.3.13", "1.3.14"], Some("1.3.14"), "1.3.13"),
        GlobalChange::Keep
    ));
    assert!(matches!(
        after(&["1.3.13", "1.3.14"], None, "1.3.13"),
        GlobalChange::Keep
    ));
    assert!(matches!(
        after(&["1.3.13"], Some("1.3.17"), "1.3.17"),
        GlobalChange::Keep
    ));
    assert!(matches!(after(&[], Some("1.3.17"), "1.3.17"), GlobalChange::Keep));
}

#[test]
fn available_is_released_without_installed() {
    let all = list(&["1.4.1", "1.3.13", "1.3.17", "1.3.14", "1.3.17"]);
    let installed = list(&["1.3.14", "1.0.0"]);
    assert_eq!(
        ListCmd::available_versions(&all, &installed),
        list(&["1.3.13", "1.3.17", "1.4.1"])
    );
    assert_eq!(
        ListCmd::available_versions(&all, &all),
        Vec::<Version>::new()
    );
    assert_eq!(
        ListCmd::available_versions(&Vec::new(), &installed),
        Vec::<Version>::new()
    );
    assert_eq!(
        ListCmd::available_versions(&list(&["1.3.14", "1.3.13"]), &Vec::new()),
        list(&["1.3.13", "1.3.14"])
    );
}
