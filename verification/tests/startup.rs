use dsh_desktop::command::{
    kill_process_tree, netstat_command, probe_command, probe_pnpm, start_command, KillStep,
    ProbeEnd, Stream,
};
use dsh_desktop::page::Notice;
use dsh_desktop::platform::Platform;
use dsh_desktop::startup::{
    is_dsh_running, process_exited, shown_token, start_dsh_process, Boot, BootStep, ChildState,
    DshOutcome, ReadyStep, ReadyWait, ServiceReply, StartEnd, StartEvent, StartStep,
    SERVICE_PROBE_TIMEOUT_S,
};

#[test]
fn commands_of_the_workspace_run_in_its_directory() {
    let start = start_command("C:\\npm\\pnpm.cmd", "D:\\dsh");
    assert_eq!(start.program, "C:\\npm\\pnpm.cmd");
    assert_eq!(start.args, ["dsh", "web", "--no-open"]);
    assert_eq!(start.dir.as_deref(), Some("D:\\dsh"));
    assert_eq!(
        start.env,
        vec![("COREPACK_ENABLE_DOWNLOAD_PROMPT".to_string(), "0".to_string())]
    );
    let probe = probe_command("pnpm", "/dsh");
    assert_eq!(probe.args, ["dsh", "web", "--help"]);
    assert_eq!(probe.env.len(), 1);
    let netstat = netstat_command();
    assert_eq!(netstat.program, "netstat");
    assert_eq!(netstat.args, ["-ano", "-p", "tcp"]);
    assert_eq!(netstat.dir, None);
    assert!(netstat.env.is_empty());
}

#[test]
fn the_output_of_the_service_is_read() {
    let start = start_command("pnpm", "/dsh");
    assert_eq!(
        (start.stdin, start.stdout, start.stderr),
        (Stream::Null, Stream::Piped, Stream::Piped)
    );
    assert!(start.own_group);
    let probe = probe_command("pnpm", "/dsh");
    assert_eq!((probe.stdin, probe.stdout, probe.stderr), (Stream::Null, Stream::Null, Stream::Null));
    assert!(!probe.own_group);
    let netstat = netstat_command();
    assert_eq!(
        (netstat.stdin, netstat.stdout, netstat.stderr),
        (Stream::Null, Stream::Piped, Stream::Null)
    );
}

#[test]
fn only_success_in_time_proves_a_command() {
    assert!(probe_pnpm(ProbeEnd::Exited { success: true }));
    assert!(!probe_pnpm(ProbeEnd::Exited { success: false }));
    assert!(!probe_pnpm(ProbeEnd::TimedOut));
    assert!(!probe_pnpm(ProbeEnd::WaitFailed));
    assert!(!probe_pnpm(ProbeEnd::NotStarted));
}

#[test]
fn a_process_is_ended_with_those_below_it() {
    match kill_process_tree(Platform::Windows, Some(42)) {
        KillStep::Run(plan) => {
            assert_eq!(plan.program, "taskkill");
            assert_eq!(plan.args, ["/T", "/F", "/PID", "42"]);
        }
        other => panic!("{other:?}"),
    }
    assert!(matches!(kill_process_tree(Platform::Windows, None), KillStep::Nothing));
    match kill_process_tree(Platform::Other, Some(42)) {
        KillStep::Run(plan) => {
            assert_eq!(plan.program, "kill");
            assert_eq!(plan.args, ["-s", "KILL", "--", "-42"]);
            assert_eq!((plan.stdout, plan.stderr), (Stream::Null, Stream::Null));
        }
        other => panic!("{other:?}"),
    }
    assert!(matches!(kill_process_tree(Platform::Other, None), KillStep::Nothing));
}

fn course(listening: bool, freed: bool, spawns: bool) -> (Vec<&'static str>, StartEnd) {
    let mut names = Vec::new();
    let mut event = StartEvent::Wanted;
    loop {
        let (name, next) = match start_dsh_process(event) {
            StartStep::EndOwn => ("end own", StartEvent::OwnEnded),
            StartStep::ForgetToken => ("forget", StartEvent::TokenForgotten),
            StartStep::LookAtPort => ("look", StartEvent::PortSeen { listening }),
            StartStep::EndOccupants => ("end occupants", StartEvent::OccupantsTold),
            StartStep::AwaitPort { tries } => {
                assert_eq!(tries, 30);
                ("await", StartEvent::PortAwaited { free: freed })
            }
            StartStep::FindPnpm => (
                "find",
                StartEvent::PnpmFound { pnpm: "p".to_string(), dsh_dir: "d".to_string() },
            ),
            StartStep::Spawn { command } => {
                assert_eq!(command.program, "p");
                assert_eq!(command.args, ["dsh", "web", "--no-open"]);
                assert_eq!(command.dir.as_deref(), Some("d"));
                ("spawn", StartEvent::Spawned { ok: spawns })
            }
            StartStep::Done { end } => return (names, end),
        };
        names.push(name);
        event = next;
    }
}

#[test]
fn a_start_clears_the_past_and_the_port() {
    assert_eq!(
        course(false, false, true),
        (vec!["end own", "forget", "look", "find", "spawn"], StartEnd::Started)
    );
    assert_eq!(
        course(true, true, true),
        (
            vec!["end own", "forget", "look", "end occupants", "await", "find", "spawn"],
            StartEnd::Started
        )
    );
    assert_eq!(
        course(true, false, true),
        (vec!["end own", "forget", "look", "end occupants", "await"], StartEnd::PortHeld)
    );
    assert_eq!(course(false, false, false).1, StartEnd::SpawnFailed);
    assert_eq!(course(true, true, false).1, StartEnd::SpawnFailed);
}

#[test]
fn only_a_known_end_counts() {
    assert_eq!(
        process_exited(ChildState::Exited { status: "exit code: 1".to_string() }).as_deref(),
        Some("exit code: 1")
    );
    assert_eq!(process_exited(ChildState::Absent), None);
    assert_eq!(process_exited(ChildState::Running), None);
    assert_eq!(process_exited(ChildState::Unknown), None);
}

#[test]
fn any_answer_shows_the_service() {
    assert!(is_dsh_running(ServiceReply::Answered { status: 200 }));
    assert!(is_dsh_running(ServiceReply::Answered { status: 401 }));
    assert!(!is_dsh_running(ServiceReply::Failed));
    assert!(!is_dsh_running(ServiceReply::TimedOut));
}

/// Runs a wait; the world is given by the second, counted from one, in which something happens, and
/// by the seconds that a look without an answer takes.
fn slow_wait(answers: u64, dies: u64, token: u64, probe: u64) -> (DshOutcome, u64) {
    let (mut wait, mut step) = ReadyWait::new();
    let mut now = 0;
    loop {
        step = match step {
            ReadyStep::Sleep { millis } => {
                assert_eq!(millis, 1000);
                now += 1;
                wait.slept(now)
            }
            ReadyStep::ProbeService => {
                let up = now >= answers;
                if !up {
                    now += probe;
                }
                wait.service_probed(up, now)
            }
            ReadyStep::LookForToken => wait.token_looked_for(now >= token),
            ReadyStep::CheckExit => {
                let dead = now >= dies;
                wait.exit_checked(if dead { Some("dead".to_string()) } else { None })
            }
            ReadyStep::ReadToken => wait.token_read(now >= token),
            ReadyStep::Done { outcome } => return (outcome, now),
        };
    }
}

fn wait(answers: u64, dies: u64, token: u64) -> (DshOutcome, u64) {
    slow_wait(answers, dies, token, 0)
}

#[test]
fn a_wait_ends_by_what_happens_first() {
    assert!(matches!(wait(999, 999, 999), (DshOutcome::Timeout, 180)));
    assert!(matches!(wait(10, 999, 3), (DshOutcome::Ready { has_token: true }, 10)));
    assert!(matches!(wait(10, 999, 12), (DshOutcome::Ready { has_token: true }, 12)));
    assert!(matches!(wait(10, 999, 999), (DshOutcome::Ready { has_token: false }, 15)));
    assert!(matches!(wait(10, 999, 15), (DshOutcome::Ready { has_token: true }, 15)));
    assert!(matches!(wait(180, 999, 180), (DshOutcome::Ready { has_token: true }, 180)));
    assert!(matches!(wait(181, 999, 1), (DshOutcome::Timeout, 180)));
    match wait(999, 7, 999) {
        (DshOutcome::ProcessDied { status }, 7) => assert_eq!(status, "dead"),
        other => panic!("{other:?}"),
    }
    assert!(matches!(wait(10, 12, 999), (DshOutcome::ProcessDied { .. }, 12)));
    assert!(matches!(wait(10, 10, 10), (DshOutcome::Ready { has_token: true }, 10)));
}

#[test]
fn a_port_that_never_answers_is_given_up_in_time() {
    assert_eq!(SERVICE_PROBE_TIMEOUT_S, 3);
    assert!(matches!(slow_wait(999, 999, 999, 3), (DshOutcome::Timeout, 180)));
    assert!(matches!(slow_wait(999, 999, 999, 2), (DshOutcome::Timeout, 180)));
    match slow_wait(999, 999, 999, 4) {
        (DshOutcome::Timeout, end) => assert!((180..185).contains(&end), "{end}"),
        other => panic!("{other:?}"),
    }
    assert!(matches!(slow_wait(177, 999, 1, 3), (DshOutcome::Ready { has_token: true }, 177)));
}

#[test]
fn a_pause_counts_whatever_the_clock_shows() {
    let mut wait = ReadyWait { elapsed: 7, grace: None };
    assert!(matches!(wait.slept(0), ReadyStep::ProbeService));
    assert_eq!(wait.elapsed, 8);
    assert!(matches!(wait.service_probed(false, 3), ReadyStep::CheckExit));
    assert_eq!(wait.elapsed, 8);
    let mut wait = ReadyWait { elapsed: u64::MAX, grace: Some(5) };
    assert!(matches!(wait.slept(1), ReadyStep::ReadToken));
    assert_eq!(wait, ReadyWait { elapsed: u64::MAX, grace: Some(5) });
}

#[test]
fn progress_is_reported_every_fifth_second() {
    assert!(ReadyWait { elapsed: 5, grace: None }.reports_progress());
    assert!(!ReadyWait { elapsed: 6, grace: None }.reports_progress());
}

fn died() -> DshOutcome {
    DshOutcome::ProcessDied { status: "exit code: 1".to_string() }
}

#[test]
fn a_running_service_is_shown_unless_a_restart_is_forced() {
    let (boot, step) = Boot::check_and_start_dsh(false);
    assert!(matches!(step, BootStep::ProbeService));
    assert!(matches!(boot.service_probed(true), BootStep::YieldToExternal));
    assert!(matches!(boot.service_probed(false), BootStep::Start { flush: false }));
    let (_, step) = Boot::restart_dsh_service();
    assert!(matches!(step, BootStep::Start { flush: false }));
}

#[test]
fn a_failed_start_is_told_with_its_reason() {
    let (boot, _) = Boot::check_and_start_dsh(true);
    assert!(matches!(boot.start_ended(StartEnd::Started), BootStep::AwaitReady));
    assert!(matches!(
        boot.start_ended(StartEnd::PortHeld),
        BootStep::Fail { notice: Notice::PortBlocked, flush: false }
    ));
    assert!(matches!(
        boot.start_ended(StartEnd::SpawnFailed),
        BootStep::Fail { notice: Notice::SpawnFailed, flush: false }
    ));
}

#[test]
fn the_tooltip_follows_the_course() {
    assert_eq!(shown_token(&BootStep::Navigate { has_token: true, flush: false }), Some(true));
    assert_eq!(shown_token(&BootStep::Navigate { has_token: false, flush: true }), Some(false));
    assert_eq!(shown_token(&BootStep::YieldToExternal), Some(false));
    assert_eq!(
        shown_token(&BootStep::Fail { notice: Notice::SpawnFailed, flush: false }),
        Some(false)
    );
    assert_eq!(shown_token(&BootStep::ProbeService), None);
    assert_eq!(shown_token(&BootStep::Start { flush: true }), None);
    assert_eq!(shown_token(&BootStep::AwaitReady), None);
}

#[test]
fn a_process_that_dies_is_started_once_more() {
    let (mut boot, _) = Boot::check_and_start_dsh(true);
    assert!(matches!(boot.wait_ended(died()), BootStep::Start { flush: true }));
    assert_eq!(boot.attempts, 1);
    match boot.wait_ended(died()) {
        BootStep::Fail { notice: Notice::ProcessDied { status, attempts }, flush } => {
            assert_eq!((status.as_str(), attempts, flush), ("exit code: 1", 1, true));
        }
        other => panic!("{other:?}"),
    }
}

#[test]
fn a_ready_service_is_shown_and_silence_is_told() {
    let (mut boot, _) = Boot::check_and_start_dsh(false);
    assert!(matches!(
        boot.wait_ended(DshOutcome::Ready { has_token: true }),
        BootStep::Navigate { has_token: true, flush: false }
    ));
    assert!(matches!(
        boot.wait_ended(DshOutcome::Ready { has_token: false }),
        BootStep::Navigate { has_token: false, flush: true }
    ));
    assert!(matches!(
        boot.wait_ended(DshOutcome::Timeout),
        BootStep::Fail { notice: Notice::TimedOut, flush: true }
    ));
}
