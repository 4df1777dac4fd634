use dsh_desktop::config::{
    asks_close_action, close_answered, close_requested, close_to_tray_checked,
    configured_dir_checked, current_close_action, default_dir_checked, dir_picked, ensure_dsh_dir,
    toggled_close_action, update_close_action, update_dsh_dir, CloseDecision, Config, DirStep,
    CLOSE_ACTION_EXIT, CLOSE_ACTION_TRAY, DEFAULT_DSH_DIR,
};

fn config(dir: &str, action: Option<&str>) -> Config {
    Config { dsh_dir: dir.to_string(), close_action: action.map(|a| a.to_string()) }
}

#[test]
fn close_action_defaults_to_tray() {
    assert_ne!(CLOSE_ACTION_TRAY, CLOSE_ACTION_EXIT);
    assert_eq!(current_close_action(&None), CLOSE_ACTION_TRAY);
    assert_eq!(current_close_action(&Some(Config::default())), CLOSE_ACTION_TRAY);
}

#[test]
fn a_chosen_action_is_in_force() {
    let updated = update_close_action(Some(config("d", None)), "exit");
    assert_eq!(updated.dsh_dir, "d");
    assert_eq!(current_close_action(&Some(updated)), "exit");
    let first = update_close_action(None, "tray");
    assert_eq!(first.dsh_dir, "");
    assert_eq!(first.close_action.as_deref(), Some("tray"));
}

#[test]
fn a_new_directory_keeps_the_close_action() {
    let updated = update_dsh_dir(Some(config("old", Some("exit"))), "new");
    assert_eq!(updated.dsh_dir, "new");
    assert_eq!(updated.close_action.as_deref(), Some("exit"));
    let first = update_dsh_dir(None, "new");
    assert_eq!(first.dsh_dir, "new");
    assert_eq!(first.close_action, None);
}

#[test]
fn changes_commute() {
    let a = update_dsh_dir(Some(update_close_action(None, "exit")), "d");
    let b = update_close_action(Some(update_dsh_dir(None, "d")), "exit");
    assert_eq!((a.dsh_dir, a.close_action), (b.dsh_dir, b.close_action));
}

#[test]
fn the_question_is_asked_once() {
    assert!(asks_close_action(&None));
    assert!(asks_close_action(&Some(config("d", None))));
    assert!(!asks_close_action(&Some(config("d", Some("tray")))));
}

#[test]
fn closing_goes_by_the_action() {
    let decision = |action| close_requested(&Some(config("d", action)));
    assert_eq!(decision(Some("exit")), CloseDecision::HideAndQuit);
    assert_eq!(decision(Some("tray")), CloseDecision::Hide);
    assert_eq!(decision(Some("anything")), CloseDecision::Hide);
    assert!(!close_to_tray_checked("exit"));
    assert!(close_to_tray_checked("tray"));
    assert!(close_to_tray_checked("anything"));
}

#[test]
fn the_first_close_asks_and_the_answer_is_remembered() {
    assert_eq!(close_requested(&None), CloseDecision::HideAndAsk);
    assert_eq!(close_requested(&Some(config("d", None))), CloseDecision::HideAndAsk);
    let answered = update_close_action(None, close_answered(false).action);
    assert_eq!(close_requested(&Some(answered)), CloseDecision::HideAndQuit);
    let answered = update_close_action(None, close_answered(true).action);
    assert_eq!(close_requested(&Some(answered)), CloseDecision::Hide);
}

#[test]
fn the_toggle_leads_both_ways() {
    assert_eq!(toggled_close_action("exit"), "tray");
    assert_eq!(toggled_close_action("tray"), "exit");
    assert_eq!(toggled_close_action("anything"), "exit");
}

#[test]
fn the_answer_sets_action_mark_and_end() {
    let tray = close_answered(true);
    assert_eq!((tray.action, tray.checked, tray.quit), ("tray", true, false));
    let exit = close_answered(false);
    assert_eq!((exit.action, exit.checked, exit.quit), ("exit", false, true));
}

#[test]
fn the_directory_search_has_an_order() {
    assert_eq!(DEFAULT_DSH_DIR, "D:\\DeepSeekHarness\\deepseek-harness");
    assert!(matches!(ensure_dsh_dir(&None), DirStep::CheckDefault));
    assert!(matches!(ensure_dsh_dir(&Some(config("", None))), DirStep::CheckDefault));
    match ensure_dsh_dir(&Some(config("x", None))) {
        DirStep::CheckConfigured { dir } => assert_eq!(dir, "x"),
        other => panic!("{other:?}"),
    }
    match configured_dir_checked("x".to_string(), true) {
        DirStep::Done { dir, save } => assert_eq!((dir.as_str(), save), ("x", false)),
        other => panic!("{other:?}"),
    }
    assert!(matches!(configured_dir_checked("x".to_string(), false), DirStep::CheckDefault));
    match default_dir_checked(true) {
        DirStep::Done { dir, save } => assert_eq!((dir.as_str(), save), (DEFAULT_DSH_DIR, true)),
        other => panic!("{other:?}"),
    }
    assert!(matches!(default_dir_checked(false), DirStep::Ask));
    match dir_picked(Some("p".to_string())) {
        DirStep::Done { dir, save } => assert_eq!((dir.as_str(), save), ("p", true)),
        other => panic!("{other:?}"),
    }
    match dir_picked(None) {
        DirStep::Done { dir, save } => assert_eq!((dir.as_str(), save), (DEFAULT_DSH_DIR, false)),
        other => panic!("{other:?}"),
    }
}
