use dsh_desktop::auth::{
    judge_body, probe_auth_requirement, probe_headers, takeover_notice, takes_over, AuthProbe,
    AuthReply, AuthVerdict, Takeover, TakeoverEnd, TakeoverStep, AUTH_PROBE_REDIRECTS,
    AUTH_PROBE_TIMEOUT_S,
};
use dsh_desktop::page::Notice;

fn head(status: u16, content_type: Option<&str>) -> AuthVerdict {
    probe_auth_requirement(&AuthReply::Head {
        status,
        content_type: content_type.map(|t| t.to_string()),
    })
}

#[test]
fn the_head_decides_where_it_can() {
    assert_eq!(
        probe_auth_requirement(&AuthReply::Nothing),
        AuthVerdict::Settled(AuthProbe::Inconclusive)
    );
    assert_eq!(head(401, None), AuthVerdict::Settled(AuthProbe::Required));
    assert_eq!(head(401, Some("text/plain")), AuthVerdict::Settled(AuthProbe::Required));
    assert_eq!(head(200, Some("text/html")), AuthVerdict::Settled(AuthProbe::NotRequired));
    assert_eq!(head(500, None), AuthVerdict::Settled(AuthProbe::NotRequired));
    assert_eq!(head(200, Some("text/plain; charset=utf-8")), AuthVerdict::ReadBody);
    assert_eq!(head(200, Some("Text/Plain")), AuthVerdict::Settled(AuthProbe::NotRequired));
}

#[test]
fn the_body_decides_the_rest() {
    let body = |t: &str| judge_body(&Some(t.to_string()));
    assert_eq!(body("dsh web authentication required\n"), AuthProbe::Required);
    assert_eq!(body("hello"), AuthProbe::NotRequired);
    assert_eq!(body(""), AuthProbe::NotRequired);
    assert_eq!(judge_body(&None), AuthProbe::Inconclusive);
}

#[test]
fn the_request_looks_like_a_browser() {
    let headers = probe_headers();
    assert_eq!(headers.len(), 6);
    assert_eq!(headers[0].0, "Accept");
    assert!(headers[0].1.starts_with("text/html,"));
    assert_eq!(headers[1], ("Sec-Fetch-Dest", "document"));
    assert_eq!(headers[5], ("Upgrade-Insecure-Requests", "1"));
}

fn run(looks: &[(bool, bool, AuthProbe)]) -> (TakeoverEnd, Vec<u64>) {
    let (mut check, mut step) = Takeover::new();
    let mut pauses = Vec::new();
    loop {
        let look = looks[pauses.len().saturating_sub(1).min(looks.len() - 1)];
        step = match step {
            TakeoverStep::Sleep { secs } => {
                pauses.push(secs);
                check.slept()
            }
            TakeoverStep::AskTriggered => check.asked_triggered(look.0),
            TakeoverStep::LookAtPort => check.looked_at_port(look.1),
            TakeoverStep::ProbeAuth => check.probed(look.2),
            TakeoverStep::End(end) => return (end, pauses),
        };
    }
}

#[test]
fn an_external_instance_is_kept_or_replaced() {
    let silent = (false, true, AuthProbe::Inconclusive);
    assert_eq!(run(&[(false, true, AuthProbe::Required)]), (TakeoverEnd::ReplaceForLogin, vec![0]));
    assert_eq!(run(&[(false, true, AuthProbe::NotRequired)]), (TakeoverEnd::KeepExternal, vec![0]));
    assert_eq!(run(&[(false, false, AuthProbe::Required)]), (TakeoverEnd::StartOwn, vec![0]));
    assert_eq!(run(&[(true, true, AuthProbe::Required)]), (TakeoverEnd::AlreadyTriggered, vec![0]));
    assert_eq!(run(&[silent]), (TakeoverEnd::ReplaceSilent, vec![0, 6]));
    assert_eq!(
        run(&[silent, (false, true, AuthProbe::NotRequired)]),
        (TakeoverEnd::KeepExternal, vec![0, 6])
    );
}

#[test]
fn all_looks_can_be_spent_only_out_of_course() {
    let mut check = Takeover { round: 2, silent: 0 };
    assert_eq!(check.probed(AuthProbe::Inconclusive), TakeoverStep::End(TakeoverEnd::Spent));
    let mut check = Takeover { round: 1, silent: 0 };
    assert_eq!(check.probed(AuthProbe::Inconclusive), TakeoverStep::Sleep { secs: 8 });
}

#[test]
fn a_takeover_is_announced() {
    assert!(takes_over(TakeoverEnd::ReplaceForLogin));
    assert!(takes_over(TakeoverEnd::ReplaceSilent));
    assert!(!takes_over(TakeoverEnd::StartOwn));
    assert!(matches!(
        takeover_notice(TakeoverEnd::ReplaceForLogin),
        Some(Notice::TakeoverForLogin)
    ));
    assert!(matches!(takeover_notice(TakeoverEnd::ReplaceSilent), Some(Notice::TakeoverOfSilent)));
    assert!(takeover_notice(TakeoverEnd::KeepExternal).is_none());
}

#[test]
fn a_run_takes_over_once() {
    assert_eq!((AUTH_PROBE_TIMEOUT_S, AUTH_PROBE_REDIRECTS), (5, 5));
    let checks = [
        (false, AuthProbe::Required),
        (true, AuthProbe::NotRequired),
        (true, AuthProbe::Inconclusive),
        (true, AuthProbe::Required),
        (false, AuthProbe::Required),
    ];
    let mut triggered = false;
    let mut ends = Vec::new();
    for (listening, probe) in checks {
        let (end, _) = run(&[(triggered, listening, probe)]);
        triggered = triggered || takes_over(end);
        ends.push(end);
    }
    assert_eq!(
        ends,
        [
            TakeoverEnd::StartOwn,
            TakeoverEnd::KeepExternal,
            TakeoverEnd::ReplaceSilent,
            TakeoverEnd::AlreadyTriggered,
            TakeoverEnd::AlreadyTriggered,
        ]
    );
    assert!(triggered);
}
