use dsh_desktop::log::{log_entry, open_mode, timestamp, timestamp_at, timestamp_of, OpenMode};
use dsh_desktop::paths::{
    config_dir, config_dir_under, config_path_under, dsh_log_path_under, get_config_path,
    get_dsh_log_path, get_wrapper_log_path, pnpm_command_cache_path,
    pnpm_command_cache_path_under, wrapper_log_path_under, DataPath, Root,
};
use std::path::PathBuf;

fn check(path: DataPath, parts: &[&str]) {
    assert_eq!(path.parts, parts);
    match (path.root, dirs::config_dir()) {
        (Root::User(dir), Some(home)) => assert_eq!(dir, home),
        (Root::Fixed(name), None) => assert_eq!(name, "."),
        (root, home) => panic!("{root:?} {home:?}"),
    }
}

#[test]
fn files_stand_in_the_configuration_directory() {
    check(config_dir(), &["dsh-tauri-wrapper"]);
    check(get_wrapper_log_path(), &["dsh-tauri-wrapper", "wrapper.log"]);
    check(get_dsh_log_path(), &["dsh-tauri-wrapper", "ds", "log"]);
    check(get_config_path(), &["dsh-tauri-wrapper", "config.json"]);
    check(pnpm_command_cache_path(), &["dsh-tauri-wrapper", "pnpm-command.txt"]);
}

#[test]
fn without_a_configuration_directory_the_working_directory_serves() {
    match config_dir_under(None).root {
        Root::Fixed(name) => assert_eq!(name, "."),
        other => panic!("{other:?}"),
    }
    let dir = config_dir_under(Some(PathBuf::from("/home/u/.config"))).join("x");
    assert_eq!(dir.parts, ["dsh-tauri-wrapper", "x"]);
    match dir.root {
        Root::User(home) => assert_eq!(home, PathBuf::from("/home/u/.config")),
        other => panic!("{other:?}"),
    }
}

#[test]
fn files_stand_below_the_given_directory() {
    let home = || Some(PathBuf::from("/cfg"));
    let files: [(DataPath, &[&str]); 4] = [
        (wrapper_log_path_under(home()), &["dsh-tauri-wrapper", "wrapper.log"]),
        (dsh_log_path_under(home()), &["dsh-tauri-wrapper", "ds", "log"]),
        (config_path_under(home()), &["dsh-tauri-wrapper", "config.json"]),
        (pnpm_command_cache_path_under(home()), &["dsh-tauri-wrapper", "pnpm-command.txt"]),
    ];
    for (path, parts) in files {
        assert_eq!(path.parts, parts);
        assert!(matches!(path.root, Root::User(dir) if dir == PathBuf::from("/cfg")));
    }
    assert!(matches!(wrapper_log_path_under(None).root, Root::Fixed(name) if name == "."));
}

#[test]
fn log_entries_carry_the_time() {
    assert_eq!(timestamp_at(0), "[0]");
    assert_eq!(timestamp_of(None), "[0]");
    assert_eq!(timestamp_of(Some(1999)), "[1999]");
    assert_eq!(timestamp_at(1700000000), "[1700000000]");
    assert_eq!(log_entry("[5]", "已就绪"), "[5] 已就绪\n");
    let now = timestamp();
    let secs: u64 = now[1..now.len() - 1].parse().unwrap();
    assert!(secs > 1_600_000_000);
    assert!(now.starts_with('[') && now.ends_with(']'));
}

#[test]
fn only_the_first_entry_of_a_run_clears_the_log() {
    assert_eq!(open_mode(false), OpenMode::Truncate);
    assert_eq!(open_mode(true), OpenMode::Append);
}

#[test]
fn the_log_holds_the_entries_of_this_run() {
    let mut content = "[1] left by an earlier run\n".to_string();
    let mut written = false;
    for message in ["one", "two", "three"] {
        let entry = log_entry(&timestamp_at(7), message);
        match open_mode(written) {
            OpenMode::Truncate => content = entry,
            OpenMode::Append => content.push_str(&entry),
        }
        written = true;
    }
    assert_eq!(content, "[7] one\n[7] two\n[7] three\n");
}
