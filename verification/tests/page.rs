use dsh_desktop::page::{
    double_backslashes, navigation_script, show_startup_error, tooltip, write_notice, Notice,
};
use dsh_desktop::tray::{icon_clicked, menu_clicked, TrayAction};

#[test]
fn the_window_is_led_by_a_script() {
    assert_eq!(
        navigation_script("http://h/?token=a"),
        "window.location.href = 'http://h/?token=a'"
    );
}

#[test]
fn backslashes_are_doubled() {
    assert_eq!(double_backslashes(""), "");
    assert_eq!(double_backslashes("/a/b"), "/a/b");
    for path in ["C:\\Users\\用户\\wrapper.log", "\\\\server\\share\\", "\\"] {
        assert_eq!(double_backslashes(path), path.replace('\\', "\\\\"));
        assert_eq!(double_backslashes(path).replace("\\\\", "\\"), path);
    }
}

#[test]
fn the_failure_page_holds_message_and_paths() {
    let script = show_startup_error("<b>消息</b>", "C:\\a\\wrapper.log", "C:\\a\\ds\\log");
    assert!(script.starts_with("(() => {\n  document.title = 'DSH 启动失败 — DeepSeekHarness';\n"));
    assert!(script.contains("  if (old) { old.remove(); }\n"));
    assert!(script.contains("<div style=\"margin-bottom:12px;\"><b>消息</b></div>'\n"));
    assert!(script.contains(">C:\\\\a\\\\wrapper.log</div>'\n"));
    assert!(script.contains(">C:\\\\a\\\\ds\\\\log</div>'\n"));
    assert!(script.ends_with("  document.body.appendChild(box);\n})();"));
    let log = script.find("wrapper.log").unwrap();
    let dsh_log = script.find("ds\\\\log").unwrap();
    assert!(log < dsh_log);
}

#[test]
fn notices_name_the_cause() {
    assert_eq!(
        write_notice(&Notice::PortBlocked),
        "DSH 启动失败：3080 端口被外部实例占用且无法结束。<br>\
         若该实例是以<b>管理员身份</b>启动的，请先用管理员权限结束它，\
         或以管理员身份运行本外壳后再试托盘「重启 DSH 服务」。"
    );
    assert_eq!(
        write_notice(&Notice::SpawnFailed),
        "DSH 启动失败：无法运行 <code>pnpm dsh web</code>。<br>\
         请确认已安装 pnpm 且 DSH 目录存在（可用托盘「更改 DSH 路径」重新选择），具体错误见下方日志。"
    );
    assert!(!write_notice(&Notice::SpawnFailed).contains("3080"));
    assert_eq!(
        write_notice(&Notice::ProcessDied { status: "exit status: 1".to_string(), attempts: 1 }),
        "DSH 进程启动后立即退出（exit status: 1），已重试 1 次仍未成功。<br>\
         常见原因：DSH 目录未执行 <code>pnpm install</code>，\
         或 <code>pnpm dsh web</code> 无法正常运行。"
    );
    assert_eq!(
        write_notice(&Notice::TimedOut),
        "等待 180 秒后 DSH 服务仍未响应。<br>\
         首次冷启动或正在重建时可能较慢，可先手动在 DSH 目录执行 \
         <code>pnpm dsh web</code> 确认能否正常启动，再回到托盘菜单重试。"
    );
    assert_eq!(
        write_notice(&Notice::TakeoverForLogin),
        "检测到 DSH 正在由外部实例运行，且需要 token 认证。<br>\
         正在自动重启 DSH 服务以完成登录（外部实例将被结束）…"
    );
    assert_eq!(
        write_notice(&Notice::TakeoverOfSilent),
        "检测到 3080 上的实例持续无响应（疑似残留进程），<br>\
         正在自动重启 DSH 服务…"
    );
}

#[test]
fn the_tooltip_tells_of_the_token() {
    assert_eq!(tooltip(true), "DeepSeek Harness Desktop —— 已获取带 token 的访问地址");
    assert_eq!(
        tooltip(false),
        "DeepSeek Harness Desktop —— 未捕获到 token 地址，请从 DSH 控制台复制最新 URL"
    );
}

#[test]
fn the_tray_knows_its_entries() {
    assert_eq!(menu_clicked("show"), TrayAction::Show);
    assert_eq!(menu_clicked("hide"), TrayAction::Hide);
    assert_eq!(menu_clicked("close_to_tray"), TrayAction::ToggleCloseAction);
    assert_eq!(menu_clicked("restart_dsh"), TrayAction::RestartDsh);
    assert_eq!(menu_clicked("change_dir"), TrayAction::ChangeDir);
    assert_eq!(menu_clicked("quit"), TrayAction::Quit);
    assert_eq!(menu_clicked("other"), TrayAction::Ignore);
    assert_eq!(icon_clicked(true), TrayAction::Hide);
    assert_eq!(icon_clicked(false), TrayAction::Show);
}
