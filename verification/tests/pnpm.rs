use dsh_desktop::platform::Platform;
use dsh_desktop::pnpm::{
    default_pnpm_name, persists, pnpm_candidates, remembers, resolve_pnpm_command, Origin,
    PnpmSearch, PnpmStep,
};

fn windows() -> PnpmSearch {
    PnpmSearch::new(Platform::Windows, Some("C:\\A".to_string()), Some("C:\\P".to_string()))
}

fn done(step: PnpmStep) -> (String, Origin) {
    match step {
        PnpmStep::Done { command, origin } => (command, origin),
        other => panic!("{other:?}"),
    }
}

fn probe(step: PnpmStep) -> String {
    match step {
        PnpmStep::Probe { command } => command,
        other => panic!("{other:?}"),
    }
}

#[test]
fn candidates_have_an_order() {
    assert_eq!(
        pnpm_candidates(Platform::Windows, Some("C:\\A".to_string()), Some("C:\\P".to_string())),
        ["C:\\A\\npm\\pnpm.cmd", "C:\\P\\nodejs\\pnpm.CMD", "pnpm.cmd"]
    );
    assert_eq!(pnpm_candidates(Platform::Windows, None, None), ["pnpm.cmd"]);
    assert_eq!(pnpm_candidates(Platform::Other, Some("x".to_string()), None), ["pnpm"]);
    assert_eq!(default_pnpm_name(Platform::Windows), "pnpm.cmd");
    assert_eq!(default_pnpm_name(Platform::Other), "pnpm");
    assert_eq!(Platform::Windows.separator(), '\\');
    assert_eq!(Platform::Other.separator(), '/');
}

#[test]
fn a_known_command_needs_no_search() {
    assert_eq!(
        done(resolve_pnpm_command(Some("p".to_string()))),
        ("p".to_string(), Origin::Memory)
    );
    assert!(matches!(resolve_pnpm_command(None), PnpmStep::ReadCache));
}

#[test]
fn a_kept_command_is_used_again() {
    let search = windows();
    assert_eq!(
        done(search.cache_read(Some("  pnpm.cmd\r\n".to_string()))),
        ("pnpm.cmd".to_string(), Origin::Disk)
    );
    match search.cache_read(Some("C:\\x\\pnpm.cmd".to_string())) {
        PnpmStep::CheckFile { command } => assert_eq!(command, "C:\\x\\pnpm.cmd"),
        other => panic!("{other:?}"),
    }
    assert_eq!(
        done(search.file_checked("C:\\x\\pnpm.cmd".to_string(), true)),
        ("C:\\x\\pnpm.cmd".to_string(), Origin::Disk)
    );
    assert_eq!(
        probe(search.file_checked("C:\\x\\pnpm.cmd".to_string(), false)),
        "C:\\A\\npm\\pnpm.cmd"
    );
    assert_eq!(probe(search.cache_read(Some(" \n".to_string()))), "C:\\A\\npm\\pnpm.cmd");
    assert_eq!(probe(search.cache_read(None)), "C:\\A\\npm\\pnpm.cmd");
}

#[test]
fn the_first_usable_command_wins() {
    let mut search = windows();
    assert_eq!(probe(search.cache_read(None)), "C:\\A\\npm\\pnpm.cmd");
    assert_eq!(probe(search.probed(false)), "C:\\P\\nodejs\\pnpm.CMD");
    assert_eq!(
        done(search.probed(true)),
        ("C:\\P\\nodejs\\pnpm.CMD".to_string(), Origin::Probed)
    );
}

#[test]
fn the_plain_name_is_left() {
    let mut search = windows();
    probe(search.probed(false));
    assert_eq!(probe(search.probed(false)), "pnpm.cmd");
    assert_eq!(done(search.probed(false)), ("pnpm.cmd".to_string(), Origin::Fallback));
}

#[test]
fn only_a_proved_command_is_kept() {
    assert!(!remembers(Origin::Memory));
    for origin in [Origin::Disk, Origin::Probed, Origin::Fallback] {
        assert!(remembers(origin));
    }
    assert!(persists(Origin::Probed));
    for origin in [Origin::Memory, Origin::Disk, Origin::Fallback] {
        assert!(!persists(origin));
    }
}
