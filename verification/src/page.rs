//! What the window and the tray show: scripts for the window, notices and the tooltip.

use vstd::prelude::*;

use crate::text::chars_of;
use crate::text::decimal;
use crate::text::digits;

verus! {

/// How long, in seconds, the service may take to answer.
pub const STARTUP_TIMEOUT_S: u64 = 180;

/// Tooltip before anything is known.
pub const TOOLTIP_BASE: &'static str = "DeepSeek Harness Desktop";

/// Tooltip with a captured address.
pub const TOOLTIP_TOKEN_OK: &'static str = "DeepSeek Harness Desktop —— 已获取带 token 的访问地址";

/// Tooltip without one.
pub const TOOLTIP_TOKEN_MISSING: &'static str =
    "DeepSeek Harness Desktop —— 未捕获到 token 地址，请从 DSH 控制台复制最新 URL";

/// Script of the failure page, up to the message.
pub const PAGE_HEAD: &'static str = r#"(() => {
  document.title = 'DSH 启动失败 — DeepSeekHarness';
  const old = document.getElementById('dsh-startup-error');
  if (old) { old.remove(); }
  const box = document.createElement('div');
  box.id = 'dsh-startup-error';
  box.style.cssText = 'position:fixed;left:50%;top:50%;transform:translate(-50%,-50%);max-width:640px;width:88%;background:#1b1b33;border:1px solid #3a3a5c;border-radius:12px;padding:24px 28px;color:#e0e0e0;font-family:system-ui,sans-serif;font-size:13px;line-height:1.8;box-shadow:0 12px 40px rgba(0,0,0,.5);z-index:99999;';
  box.innerHTML = '<div style="font-size:17px;font-weight:600;color:#ff8a8a;margin-bottom:12px;">DSH 启动失败</div>'
    + '<div style="margin-bottom:12px;">"#;

/// Script of the failure page, between the message and the path of the shell's log.
pub const PAGE_TO_LOG: &'static str = r#"</div>'
    + '<div style="color:#9a9ab0;">排查日志：</div>'
    + '<div style="font-family:Consolas,monospace;font-size:12px;background:#0f0f23;border-radius:6px;padding:8px 10px;margin:6px 0 12px;word-break:break-all;user-select:text;">"#;

/// Script of the failure page, between the two paths.
pub const PAGE_TO_DSH_LOG: &'static str = r#"</div>'
    + '<div style="font-family:Consolas,monospace;font-size:12px;background:#0f0f23;border-radius:6px;padding:8px 10px;margin:6px 0 12px;word-break:break-all;user-select:text;">"#;

/// Script of the failure page, behind the path of the output log.
pub const PAGE_TAIL: &'static str = r#"</div>'
    + '<div style="color:#9a9ab0;">可尝试：托盘右键「重启 DSH 服务」（会重新捕获访问地址）。</div>';
  document.body.appendChild(box);
})();"#;

/// The tooltip that tells whether an address has been captured.
pub fn tooltip(has_token: bool) -> (text: &'static str)
    ensures
        text@ == (if has_token {
            TOOLTIP_TOKEN_OK@
        } else {
            TOOLTIP_TOKEN_MISSING@
        }),
{
    if has_token {
        TOOLTIP_TOKEN_OK
    } else {
        TOOLTIP_TOKEN_MISSING
    }
}

// ---------------------------------------------------------------------------
// Scripts
// ---------------------------------------------------------------------------

/// The script that leads the window to an address.
pub fn navigation_script(url: &str) -> (script: String)
    ensures
        script@ == "window.location.href = '"@ + url@ + "'"@,
{
    "window.location.href = '".to_string().concat(url).concat("'")
}

/// `t` with every backslash doubled.
pub open spec fn doubled(t: Seq<char>) -> Seq<char>
    decreases t.len(),
{
    if t.len() == 0 {
        t
    } else if t[0] == '\\' {
        seq!['\\', '\\'] + doubled(t.drop_first())
    } else {
        seq![t[0]] + doubled(t.drop_first())
    }
}

/// Doubles the backslashes of a path, so that a string literal of a script can hold it.
pub fn double_backslashes(path: &str) -> (escaped: String)
    ensures
        escaped@ == doubled(path@),
{
    let t = chars_of(path);
    let mut escaped: String = String::new();
    let mut i: usize = 0;
    proof {
        assert(path@.skip(0) =~= path@);
        assert(escaped@ + doubled(path@.skip(0)) =~= doubled(path@));
    }
    while i < t.len()
        invariant
            i <= t.len(),
            t@ == path@,
            escaped@ + doubled(path@.skip(i as int)) == doubled(path@),
        decreases t.len() - i,
    {
        let ghost before = escaped@;
        let ghost rest = path@.skip(i as int);
        proof {
            reveal_strlit("\\\\");
            assert(rest.drop_first() =~= path@.skip(i + 1));
        }
        if t[i] == '\\' {
            escaped.append("\\\\");
            proof {
                assert("\\\\"@ =~= seq!['\\', '\\']);
            }
        } else {
            escaped.append(path.substring_char(i, i + 1));
            proof {
                assert(path@.subrange(i as int, i + 1) =~= seq![path@[i as int]]);
            }
        }
        proof {
            assert(escaped@ + doubled(path@.skip(i + 1)) =~= before + doubled(rest));
        }
        i = i + 1;
    }
    proof {
        assert(path@.skip(i as int) =~= Seq::<char>::empty());
        assert(escaped@ + Seq::<char>::empty() =~= escaped@);
    }
    escaped
}

/// The text that a string literal of a script stands for, if every backslash in it is one of a pair:
/// a pair stands for a backslash. `None` if there is a single one, which stands not for itself but
/// together with what follows for something else.
pub open spec fn literal_value(t: Seq<char>) -> Option<Seq<char>>
    decreases t.len(),
{
    if t.len() == 0 {
        Some(t)
    } else if t[0] != '\\' {
        match literal_value(t.drop_first()) {
            Some(rest) => Some(seq![t[0]] + rest),
            None => None,
        }
    } else if t.len() >= 2 && t[1] == '\\' {
        match literal_value(t.skip(2)) {
            Some(rest) => Some(seq!['\\'] + rest),
            None => None,
        }
    } else {
        None
    }
}

/// A path with its backslashes doubled stands for the path itself.
pub proof fn law_escaped_path_stands_for_itself(path: Seq<char>)
    ensures
        literal_value(doubled(path)) == Some(path),
    decreases path.len(),
{
    if path.len() > 0 {
        let rest = path.drop_first();
        law_escaped_path_stands_for_itself(rest);
        assert(path =~= seq![path[0]] + rest);
        if path[0] == '\\' {
            assert(doubled(path).skip(2) =~= doubled(rest));
        } else {
            assert(doubled(path).drop_first() =~= doubled(rest));
        }
    }
}

/// A path with a backslash does not stand for itself as it is.
pub proof fn law_bare_backslash_is_lost(path: Seq<char>)
    requires
        path.contains('\\'),
    ensures
        literal_value(path) != Some(path),
{
    lemma_literal_shrinks(path);
}

proof fn lemma_literal_shrinks(t: Seq<char>)
    ensures
        literal_value(t) matches Some(text) ==> text.len() <= t.len() && (t.contains('\\')
            ==> text.len() < t.len()),
    decreases t.len(),
{
    if t.len() > 0 {
        if t[0] != '\\' {
            let rest = t.drop_first();
            lemma_literal_shrinks(rest);
            if t.contains('\\') {
                let i = choose|i: int| 0 <= i < t.len() && t[i] == '\\';
                assert(rest[i - 1] == '\\');
            }
        } else if t.len() >= 2 && t[1] == '\\' {
            lemma_literal_shrinks(t.skip(2));
        }
    }
}

/// The script that puts a failure notice on the page, with the paths of the two logs.
pub fn show_startup_error(message: &str, log_path: &str, dsh_log_path: &str) -> (script: String)
    ensures
        script@ == PAGE_HEAD@ + message@ + PAGE_TO_LOG@ + doubled(log_path@) + PAGE_TO_DSH_LOG@
            + doubled(dsh_log_path@) + PAGE_TAIL@,
{
    let log = double_backslashes(log_path);
    let dsh_log = double_backslashes(dsh_log_path);
    PAGE_HEAD.to_string().concat(message).concat(PAGE_TO_LOG).concat(log.as_str()).concat(
        PAGE_TO_DSH_LOG,
    ).concat(dsh_log.as_str()).concat(PAGE_TAIL)
}

// ---------------------------------------------------------------------------
// Notices
// ---------------------------------------------------------------------------

/// What the user is told when a start fails or an instance is taken over.
#[derive(Debug)]
pub enum Notice {
    /// The port could not be freed.
    PortBlocked,
    /// The command that starts the service could not be run.
    SpawnFailed,
    /// The process ended before the service answered, after so many retries.
    ProcessDied { status: String, attempts: u32 },
    /// The service did not answer in time.
    TimedOut,
    /// An instance of another owner asks for a token and is replaced.
    TakeoverForLogin,
    /// An instance of another owner does not answer and is replaced.
    TakeoverOfSilent,
}

/// The text of a notice.
pub open spec fn notice_text(notice: Notice) -> Seq<char> {
    match notice {
        Notice::PortBlocked =>
            "DSH 启动失败：3080 端口被外部实例占用且无法结束。<br>若该实例是以<b>管理员身份</b>启动的，请先用管理员权限结束它，或以管理员身份运行本外壳后再试托盘「重启 DSH 服务」。"@,
        Notice::SpawnFailed =>
            "DSH 启动失败：无法运行 <code>pnpm dsh web</code>。<br>请确认已安装 pnpm 且 DSH 目录存在（可用托盘「更改 DSH 路径」重新选择），具体错误见下方日志。"@,
        Notice::ProcessDied { status, attempts } => "DSH 进程启动后立即退出（"@ + status@ + "），已重试 "@
            + digits(attempts as nat)
            + " 次仍未成功。<br>常见原因：DSH 目录未执行 <code>pnpm install</code>，或 <code>pnpm dsh web</code> 无法正常运行。"@,
        Notice::TimedOut => "等待 "@ + digits(STARTUP_TIMEOUT_S as nat)
            + " 秒后 DSH 服务仍未响应。<br>首次冷启动或正在重建时可能较慢，可先手动在 DSH 目录执行 <code>pnpm dsh web</code> 确认能否正常启动，再回到托盘菜单重试。"@,
        Notice::TakeoverForLogin =>
            "检测到 DSH 正在由外部实例运行，且需要 token 认证。<br>正在自动重启 DSH 服务以完成登录（外部实例将被结束）…"@,
        Notice::TakeoverOfSilent =>
            "检测到 3080 上的实例持续无响应（疑似残留进程），<br>正在自动重启 DSH 服务…"@,
    }
}

/// Writes a notice.
pub fn write_notice(notice: &Notice) -> (text: String)
    ensures
        text@ == notice_text(*notice),
{
    match notice {
        Notice::PortBlocked =>
            "DSH 启动失败：3080 端口被外部实例占用且无法结束。<br>若该实例是以<b>管理员身份</b>启动的，请先用管理员权限结束它，或以管理员身份运行本外壳后再试托盘「重启 DSH 服务」。".to_string(),
        Notice::SpawnFailed =>
            "DSH 启动失败：无法运行 <code>pnpm dsh web</code>。<br>请确认已安装 pnpm 且 DSH 目录存在（可用托盘「更改 DSH 路径」重新选择），具体错误见下方日志。".to_string(),
        Notice::ProcessDied { status, attempts } => {
            let number = decimal(*attempts as u64);
            "DSH 进程启动后立即退出（".to_string().concat(status.as_str()).concat("），已重试 ").concat(
                number.as_str(),
            ).concat(
                " 次仍未成功。<br>常见原因：DSH 目录未执行 <code>pnpm install</code>，或 <code>pnpm dsh web</code> 无法正常运行。",
            )
        },
        Notice::TimedOut => {
            let number = decimal(STARTUP_TIMEOUT_S);
            "等待 ".to_string().concat(number.as_str()).concat(
                " 秒后 DSH 服务仍未响应。<br>首次冷启动或正在重建时可能较慢，可先手动在 DSH 目录执行 <code>pnpm dsh web</code> 确认能否正常启动，再回到托盘菜单重试。",
            )
        },
        Notice::TakeoverForLogin =>
            "检测到 DSH 正在由外部实例运行，且需要 token 认证。<br>正在自动重启 DSH 服务以完成登录（外部实例将被结束）…".to_string(),
        Notice::TakeoverOfSilent =>
            "检测到 3080 上的实例持续无响应（疑似残留进程），<br>正在自动重启 DSH 服务…".to_string(),
    }
}

// ---------------------------------------------------------------------------
// Laws by what is shown
// ---------------------------------------------------------------------------

/// The tooltip tells of an address exactly if there is one.
pub proof fn law_tooltip_in_words(has_token: bool, text: &'static str)
    requires
        call_ensures(tooltip, (has_token,), text),
    ensures
        has_token ==> text@ == "DeepSeek Harness Desktop —— 已获取带 token 的访问地址"@,
        !has_token ==> text@
            == "DeepSeek Harness Desktop —— 未捕获到 token 地址，请从 DSH 控制台复制最新 URL"@,
        TOOLTIP_BASE@ == "DeepSeek Harness Desktop"@,
{
}

/// The window is led to exactly the address that is given.
pub proof fn law_window_is_led_to_the_address(url: &str, script: String)
    requires
        call_ensures(navigation_script, (url,), script),
    ensures
        script@ == "window.location.href = '"@ + url@ + "'"@,
{
}

/// Escaping goes character by character: a backslash becomes two, and everything else stays.
pub proof fn law_escaping_goes_by_character(a: Seq<char>, b: Seq<char>, c: char)
    ensures
        doubled(Seq::empty()).len() == 0,
        c == '\\' ==> doubled(seq![c]) == seq!['\\', '\\'],
        c != '\\' ==> doubled(seq![c]) == seq![c],
        doubled(a + b) == doubled(a) + doubled(b),
    decreases a.len(),
{
    let one = seq![c];
    assert(one.drop_first() =~= Seq::<char>::empty());
    assert(doubled(one.drop_first()) =~= Seq::<char>::empty());
    assert(doubled(one) =~= (if c == '\\' {
        seq!['\\', '\\']
    } else {
        seq![c]
    }));
    if a.len() == 0 {
        assert(a + b =~= b);
        assert(doubled(a) + doubled(b) =~= doubled(b));
    } else {
        law_escaping_goes_by_character(a.drop_first(), b, c);
        assert((a + b).drop_first() =~= a.drop_first() + b);
        assert(doubled(a + b) =~= doubled(a) + doubled(b));
    }
}

/// The failure page holds the message as it is and both paths escaped, in this order, between parts
/// that do not depend on them.
pub proof fn law_failure_page_holds_what_is_told(
    message: &str,
    log_path: &str,
    dsh_log_path: &str,
    script: String,
    escaped_log: String,
    escaped_dsh_log: String,
)
    requires
        call_ensures(show_startup_error, (message, log_path, dsh_log_path), script),
        call_ensures(double_backslashes, (log_path,), escaped_log),
        call_ensures(double_backslashes, (dsh_log_path,), escaped_dsh_log),
    ensures
        script@ == PAGE_HEAD@ + message@ + PAGE_TO_LOG@ + escaped_log@ + PAGE_TO_DSH_LOG@
            + escaped_dsh_log@ + PAGE_TAIL@,
        escaped_log@ == doubled(log_path@),
        literal_value(escaped_log@) == Some(log_path@),
        literal_value(escaped_dsh_log@) == Some(dsh_log_path@),
{
    law_escaped_path_stands_for_itself(log_path@);
    law_escaped_path_stands_for_itself(dsh_log_path@);
}

/// Each notice says its own reason; that of a process that ended tells how, as it is, and how often it
/// was tried again; that of a silent service tells how long it was waited for.
pub proof fn law_notices_in_words(notice: &Notice, text: String)
    requires
        call_ensures(write_notice, (notice,), text),
    ensures
        *notice is PortBlocked ==> text@
            == "DSH 启动失败：3080 端口被外部实例占用且无法结束。<br>若该实例是以<b>管理员身份</b>启动的，请先用管理员权限结束它，或以管理员身份运行本外壳后再试托盘「重启 DSH 服务」。"@,
        *notice is SpawnFailed ==> text@
            == "DSH 启动失败：无法运行 <code>pnpm dsh web</code>。<br>请确认已安装 pnpm 且 DSH 目录存在（可用托盘「更改 DSH 路径」重新选择），具体错误见下方日志。"@,
        *notice matches Notice::ProcessDied { status, attempts } ==> text@ == "DSH 进程启动后立即退出（"@
            + status@ + "），已重试 "@ + digits(attempts as nat)
            + " 次仍未成功。<br>常见原因：DSH 目录未执行 <code>pnpm install</code>，或 <code>pnpm dsh web</code> 无法正常运行。"@,
        *notice is TimedOut ==> text@ == "等待 "@ + digits(180)
            + " 秒后 DSH 服务仍未响应。<br>首次冷启动或正在重建时可能较慢，可先手动在 DSH 目录执行 <code>pnpm dsh web</code> 确认能否正常启动，再回到托盘菜单重试。"@,
        *notice is TakeoverForLogin ==> text@
            == "检测到 DSH 正在由外部实例运行，且需要 token 认证。<br>正在自动重启 DSH 服务以完成登录（外部实例将被结束）…"@,
        *notice is TakeoverOfSilent ==> text@
            == "检测到 3080 上的实例持续无响应（疑似残留进程），<br>正在自动重启 DSH 服务…"@,
{
}

/// The fixed parts of the failure page: it drops an earlier one, shows the message and the two paths,
/// and tells what can be tried.
pub proof fn law_failure_page_frame()
    ensures
        PAGE_HEAD@ == r#"(() => {
  document.title = 'DSH 启动失败 — DeepSeekHarness';
  const old = document.getElementById('dsh-startup-error');
  if (old) { old.remove(); }
  const box = document.createElement('div');
  box.id = 'dsh-startup-error';
  box.style.cssText = 'position:fixed;left:50%;top:50%;transform:translate(-50%,-50%);max-width:640px;width:88%;background:#1b1b33;border:1px solid #3a3a5c;border-radius:12px;padding:24px 28px;color:#e0e0e0;font-family:system-ui,sans-serif;font-size:13px;line-height:1.8;box-shadow:0 12px 40px rgba(0,0,0,.5);z-index:99999;';
  box.innerHTML = '<div style="font-size:17px;font-weight:600;color:#ff8a8a;margin-bottom:12px;">DSH 启动失败</div>'
    + '<div style="margin-bottom:12px;">"#@,
        PAGE_TO_LOG@ == r#"</div>'
    + '<div style="color:#9a9ab0;">排查日志：</div>'
    + '<div style="font-family:Consolas,monospace;font-size:12px;background:#0f0f23;border-radius:6px;padding:8px 10px;margin:6px 0 12px;word-break:break-all;user-select:text;">"#@,
        PAGE_TO_DSH_LOG@ == r#"</div>'
    + '<div style="font-family:Consolas,monospace;font-size:12px;background:#0f0f23;border-radius:6px;padding:8px 10px;margin:6px 0 12px;word-break:break-all;user-select:text;">"#@,
        PAGE_TAIL@ == r#"</div>'
    + '<div style="color:#9a9ab0;">可尝试：托盘右键「重启 DSH 服务」（会重新捕获访问地址）。</div>';
  document.body.appendChild(box);
})();"#@,
{
}

} // verus!
