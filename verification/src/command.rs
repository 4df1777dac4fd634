//! The commands that the shell runs.

use vstd::prelude::*;

use crate::platform::Platform;
use crate::text::decimal;
use crate::text::digits;
use crate::text::law_numbers_round_trip;
use crate::text::parsed_u32;

verus! {

/// How long, in seconds, a candidate for pnpm may take to prove itself.
pub const PNPM_PROBE_TIMEOUT_S: u64 = 120;

/// Where a standard stream of a command leads.
#[derive(Clone, Copy, Debug, PartialEq, Eq, Structural)]
pub enum Stream {
    /// Where that of the shell leads.
    Inherited,
    /// Nowhere.
    Null,
    /// To the shell, which reads it.
    Piped,
}

/// A command that is to be run.
#[derive(Debug)]
pub struct CommandPlan {
    pub program: String,
    pub args: Vec<String>,
    /// The directory that it runs in, if not the shell's own.
    pub dir: Option<String>,
    /// Variables that are set for it, each with its value.
    pub env: Vec<(String, String)>,
    pub stdin: Stream,
    pub stdout: Stream,
    pub stderr: Stream,
    /// Whether it leads a process group of its own, where the system has such groups. The processes
    /// that it starts then belong to the group too.
    pub own_group: bool,
}

/// What a command consists of.
#[verifier::ext_equal]
pub struct CommandModel {
    pub program: Seq<char>,
    pub args: Seq<Seq<char>>,
    pub dir: Option<Seq<char>>,
    pub env: Seq<(Seq<char>, Seq<char>)>,
    pub stdin: Stream,
    pub stdout: Stream,
    pub stderr: Stream,
    pub own_group: bool,
}

impl View for CommandPlan {
    type V = CommandModel;

    open spec fn view(&self) -> CommandModel {
        CommandModel {
            program: self.program@,
            args: self.args.deep_view(),
            dir: self.dir.deep_view(),
            env: self.env.deep_view(),
            stdin: self.stdin,
            stdout: self.stdout,
            stderr: self.stderr,
            own_group: self.own_group,
        }
    }
}

/// A command without arguments, whose streams are those of the shell.
pub open spec fn plain_command(program: Seq<char>) -> CommandModel {
    CommandModel {
        program,
        args: Seq::empty(),
        dir: None,
        env: Seq::empty(),
        stdin: Stream::Inherited,
        stdout: Stream::Inherited,
        stderr: Stream::Inherited,
        own_group: false,
    }
}

impl CommandPlan {
    /// A command without arguments, whose streams are those of the shell.
    pub fn new(program: &str) -> (plan: CommandPlan)
        ensures
            plan@ == plain_command(program@),
    {
        let plan = CommandPlan {
            program: program.to_string(),
            args: Vec::new(),
            dir: None,
            env: Vec::new(),
            stdin: Stream::Inherited,
            stdout: Stream::Inherited,
            stderr: Stream::Inherited,
            own_group: false,
        };
        proof {
            assert(plan.args.deep_view() =~= Seq::empty());
            assert(plan.env.deep_view() =~= Seq::empty());
        }
        plan
    }

    /// The command with one more argument.
    pub fn arg(self, arg: &str) -> (plan: CommandPlan)
        ensures
            plan@ == (CommandModel { args: self@.args.push(arg@), ..self@ }),
    {
        let mut plan = self;
        plan.args.push(arg.to_string());
        proof {
            assert(plan.args.deep_view() =~= self.args.deep_view().push(arg@));
        }
        plan
    }

    /// The command, run in `dir`.
    pub fn current_dir(self, dir: &str) -> (plan: CommandPlan)
        ensures
            plan@ == (CommandModel { dir: Some(dir@), ..self@ }),
    {
        let mut plan = self;
        plan.dir = Some(dir.to_string());
        plan
    }

    /// The command with its standard streams led as told.
    pub fn streams(self, stdin: Stream, stdout: Stream, stderr: Stream) -> (plan: CommandPlan)
        ensures
            plan@ == (CommandModel { stdin, stdout, stderr, ..self@ }),
    {
        let mut plan = self;
        plan.stdin = stdin;
        plan.stdout = stdout;
        plan.stderr = stderr;
        plan
    }

    /// The command, leading a process group of its own.
    pub fn in_own_group(self) -> (plan: CommandPlan)
        ensures
            plan@ == (CommandModel { own_group: true, ..self@ }),
    {
        let mut plan = self;
        plan.own_group = true;
        plan
    }
}

/// Gives a command the environment that DSH needs: Corepack must not ask before it switches to the
/// pnpm version that the project names, since nobody could answer.
pub fn apply_process_env(plan: CommandPlan) -> (with_env: CommandPlan)
    ensures
        with_env@ == (CommandModel {
            env: plan@.env.push(("COREPACK_ENABLE_DOWNLOAD_PROMPT"@, "0"@)),
            ..plan@
        }),
{
    let mut with_env = plan;
    with_env.env.push(("COREPACK_ENABLE_DOWNLOAD_PROMPT".to_string(), "0".to_string()));
    proof {
        assert(with_env.env.deep_view() =~= plan.env.deep_view().push(
            ("COREPACK_ENABLE_DOWNLOAD_PROMPT"@, "0"@),
        ));
    }
    with_env
}

/// A command of the DSH workspace in `dir`, through the pnpm command `pnpm`, with one flag.
pub open spec fn dsh_web(pnpm: Seq<char>, flag: Seq<char>, dir: Seq<char>) -> CommandModel {
    CommandModel {
        args: seq!["dsh"@, "web"@, flag],
        dir: Some(dir),
        env: seq![("COREPACK_ENABLE_DOWNLOAD_PROMPT"@, "0"@)],
        ..plain_command(pnpm)
    }
}

/// The command that tells whether `candidate` can run `dsh web`. Only how it ends matters, so its
/// streams lead nowhere.
pub open spec fn dsh_probe(candidate: Seq<char>, dir: Seq<char>) -> CommandModel {
    CommandModel {
        stdin: Stream::Null,
        stdout: Stream::Null,
        stderr: Stream::Null,
        ..dsh_web(candidate, "--help"@, dir)
    }
}

/// The command that starts the service. Nobody could answer a question, so there is no input; both
/// kinds of output are read, since either may bring the address; and the process leads a group of
/// its own, so that it can be ended together with what it started.
pub open spec fn dsh_start(pnpm: Seq<char>, dir: Seq<char>) -> CommandModel {
    CommandModel {
        stdin: Stream::Null,
        stdout: Stream::Piped,
        stderr: Stream::Piped,
        own_group: true,
        ..dsh_web(pnpm, "--no-open"@, dir)
    }
}

fn dsh_web_plan(pnpm: &str, flag: &str, dir: &str) -> (plan: CommandPlan)
    ensures
        plan@ == dsh_web(pnpm@, flag@, dir@),
{
    let plan = apply_process_env(
        CommandPlan::new(pnpm).arg("dsh").arg("web").arg(flag).current_dir(dir),
    );
    proof {
        assert(plan@.args =~= seq!["dsh"@, "web"@, flag@]);
        assert(plan@.env =~= seq![("COREPACK_ENABLE_DOWNLOAD_PROMPT"@, "0"@)]);
    }
    plan
}

/// The command that tells whether `candidate` can run `dsh web`: it ends before a service starts.
pub fn probe_command(candidate: &str, dsh_dir: &str) -> (plan: CommandPlan)
    ensures
        plan@ == dsh_probe(candidate@, dsh_dir@),
{
    dsh_web_plan(candidate, "--help", dsh_dir).streams(Stream::Null, Stream::Null, Stream::Null)
}

/// The command that starts the service, without opening a browser.
pub fn start_command(pnpm: &str, dsh_dir: &str) -> (plan: CommandPlan)
    ensures
        plan@ == dsh_start(pnpm@, dsh_dir@),
{
    dsh_web_plan(pnpm, "--no-open", dsh_dir).streams(
        Stream::Null,
        Stream::Piped,
        Stream::Piped,
    ).in_own_group()
}

/// The command that ends a process and all processes below it, on Windows.
pub open spec fn taskkill(pid: u32) -> CommandModel {
    CommandModel {
        args: seq!["/T"@, "/F"@, "/PID"@, digits(pid as nat)],
        stdout: Stream::Null,
        stderr: Stream::Null,
        ..plain_command("taskkill"@)
    }
}

/// The command that ends a process and all processes below it, on Windows.
pub fn taskkill_command(pid: u32) -> (plan: CommandPlan)
    ensures
        plan@ == taskkill(pid),
{
    let number = decimal(pid as u64);
    let plan = CommandPlan::new("taskkill").arg("/T").arg("/F").arg("/PID").arg(
        number.as_str(),
    ).streams(Stream::Inherited, Stream::Null, Stream::Null);
    proof {
        assert(plan@.args =~= seq!["/T"@, "/F"@, "/PID"@, digits(pid as nat)]);
    }
    plan
}

/// The command that ends all processes of the group that the process `pid` leads, on other systems.
pub open spec fn group_kill(pid: u32) -> CommandModel {
    CommandModel {
        args: seq!["-s"@, "KILL"@, "--"@, "-"@ + digits(pid as nat)],
        stdout: Stream::Null,
        stderr: Stream::Null,
        ..plain_command("kill"@)
    }
}

/// The command that ends all processes of the group that the process `pid` leads, on other systems.
pub fn group_kill_command(pid: u32) -> (plan: CommandPlan)
    ensures
        plan@ == group_kill(pid),
{
    let group = "-".to_string().concat(decimal(pid as u64).as_str());
    let plan = CommandPlan::new("kill").arg("-s").arg("KILL").arg("--").arg(
        group.as_str(),
    ).streams(Stream::Inherited, Stream::Null, Stream::Null);
    proof {
        assert(plan@.args =~= seq!["-s"@, "KILL"@, "--"@, "-"@ + digits(pid as nat)]);
    }
    plan
}

/// How the shell ends a process that it started.
#[derive(Debug)]
pub enum KillStep {
    /// By this command, which ends the processes below it too.
    Run(CommandPlan),
    /// Not at all: the process is known to be gone.
    Nothing,
}

/// How the shell ends a process that it started, and those below it; `pid` is `None` once the
/// process is gone.
pub fn kill_process_tree(platform: Platform, pid: Option<u32>) -> (step: KillStep)
    ensures
        pid is None ==> step is Nothing,
        platform == Platform::Windows && pid is Some ==> step is Run && step->Run_0@ == taskkill(
            pid->0,
        ),
        platform == Platform::Other && pid is Some ==> step is Run && step->Run_0@ == group_kill(
            pid->0,
        ),
{
    match pid {
        Some(pid) => match platform {
            Platform::Windows => KillStep::Run(taskkill_command(pid)),
            Platform::Other => KillStep::Run(group_kill_command(pid)),
        },
        None => KillStep::Nothing,
    }
}

/// The command that lists the TCP ports and the processes that hold them.
pub fn netstat_command() -> (plan: CommandPlan)
    ensures
        plan@ == (CommandModel {
            args: seq!["-ano"@, "-p"@, "tcp"@],
            stdin: Stream::Null,
            stdout: Stream::Piped,
            stderr: Stream::Null,
            ..plain_command("netstat"@)
        }),
{
    let plan = CommandPlan::new("netstat").arg("-ano").arg("-p").arg("tcp").streams(
        Stream::Null,
        Stream::Piped,
        Stream::Null,
    );
    proof {
        assert(plan@.args =~= seq!["-ano"@, "-p"@, "tcp"@]);
    }
    plan
}

/// How the run of a command that proves a candidate ended.
#[derive(Clone, Copy, Debug, PartialEq, Eq, Structural)]
pub enum ProbeEnd {
    /// It could not be started.
    NotStarted,
    /// It did not end in time.
    TimedOut,
    /// Waiting for it failed.
    WaitFailed,
    /// It ended, with success or without.
    Exited { success: bool },
}

/// Whether a candidate for pnpm has proved itself: its command ended in time and with success.
pub fn probe_pnpm(end: ProbeEnd) -> (usable: bool)
    ensures
        usable == (end == ProbeEnd::Exited { success: true }),
{
    match end {
        ProbeEnd::Exited { success } => success,
        _ => false,
    }
}

/// The command that ends a process names that process, and no other.
pub proof fn law_taskkill_names_its_process(pid: u32, other: u32)
    requires
        taskkill(pid) == taskkill(other),
    ensures
        pid == other,
        parsed_u32(taskkill(pid).args[3]) == Some(pid),
{
    law_numbers_round_trip(pid);
    law_numbers_round_trip(other);
    assert(taskkill(pid).args[3] == taskkill(other).args[3]);
}

/// The command that ends a group names the group of that process, and no other.
pub proof fn law_group_kill_names_its_group(pid: u32, other: u32)
    requires
        group_kill(pid) == group_kill(other),
    ensures
        pid == other,
        group_kill(pid).args[3][0] == '-',
        parsed_u32(group_kill(pid).args[3].drop_first()) == Some(pid),
{
    reveal_strlit("-");
    law_numbers_round_trip(pid);
    law_numbers_round_trip(other);
    assert(group_kill(pid).args[3] == group_kill(other).args[3]);
    assert(("-"@ + digits(pid as nat)).drop_first() =~= digits(pid as nat));
    assert(("-"@ + digits(other as nat)).drop_first() =~= digits(other as nat));
}

// ---------------------------------------------------------------------------
// Laws by the words of a command
// ---------------------------------------------------------------------------

/// The command that starts the service, whatever the pnpm command and the directory are called: it
/// runs there, opens no browser, is never asked anything, and has both kinds of output read.
pub proof fn law_start_command_in_words(pnpm: &str, dsh_dir: &str, plan: CommandPlan)
    requires
        call_ensures(start_command, (pnpm, dsh_dir), plan),
    ensures
        plan@.program == pnpm@,
        plan@.args == seq!["dsh"@, "web"@, "--no-open"@],
        plan@.dir == Some(dsh_dir@),
        plan@.env == seq![("COREPACK_ENABLE_DOWNLOAD_PROMPT"@, "0"@)],
        plan@.stdin == Stream::Null,
        plan@.stdout == Stream::Piped,
        plan@.stderr == Stream::Piped,
        plan@.own_group,
{
}

/// The command that tries a candidate, whatever it and the directory are called: it differs from the
/// one that starts the service only in that it ends by itself and is not read.
pub proof fn law_probe_command_in_words(candidate: &str, dsh_dir: &str, plan: CommandPlan)
    requires
        call_ensures(probe_command, (candidate, dsh_dir), plan),
    ensures
        plan@.program == candidate@,
        plan@.args == seq!["dsh"@, "web"@, "--help"@],
        plan@.dir == Some(dsh_dir@),
        plan@.env == seq![("COREPACK_ENABLE_DOWNLOAD_PROMPT"@, "0"@)],
        plan@.stdin == Stream::Null,
        plan@.stdout == Stream::Null,
        plan@.stderr == Stream::Null,
        PNPM_PROBE_TIMEOUT_S == 120,
{
}

/// The environment that DSH needs is added to a command, and nothing else of it changes.
pub proof fn law_environment_is_added(plan: CommandPlan, with_env: CommandPlan)
    requires
        call_ensures(apply_process_env, (plan,), with_env),
    ensures
        with_env@.env == plan@.env.push(("COREPACK_ENABLE_DOWNLOAD_PROMPT"@, "0"@)),
        with_env@.program == plan@.program,
        with_env@.args == plan@.args,
        with_env@.dir == plan@.dir,
        with_env@.stdin == plan@.stdin,
        with_env@.stdout == plan@.stdout,
        with_env@.stderr == plan@.stderr,
        with_env@.own_group == plan@.own_group,
{
}

/// A process that runs is ended together with those below it: by its tree on Windows, and elsewhere by
/// its group. One that is gone is left alone.
pub proof fn law_process_is_ended_with_its_tree(
    platform: Platform,
    pid: Option<u32>,
    step: KillStep,
)
    requires
        call_ensures(kill_process_tree, (platform, pid), step),
    ensures
        step is Nothing <==> pid is None,
        pid is Some ==> step is Run && step->Run_0@.dir is None && step->Run_0@.env.len() == 0,
        pid is Some && platform == Platform::Windows ==> step->Run_0@.program == "taskkill"@
            && step->Run_0@.args == seq!["/T"@, "/F"@, "/PID"@, digits(pid->0 as nat)],
        pid is Some && platform == Platform::Other ==> step->Run_0@.program == "kill"@
            && step->Run_0@.args == seq!["-s"@, "KILL"@, "--"@, seq!['-'] + digits(pid->0 as nat)],
{
    reveal_strlit("-");
    assert("-"@ =~= seq!['-']);
}

/// The command that lists the ports, and what is read of it.
pub proof fn law_port_list_command_in_words(plan: CommandPlan)
    requires
        call_ensures(netstat_command, (), plan),
    ensures
        plan@.program == "netstat"@,
        plan@.args == seq!["-ano"@, "-p"@, "tcp"@],
        plan@.dir is None,
        plan@.env.len() == 0,
        plan@.stdout == Stream::Piped,
        plan@.stderr == Stream::Null,
{
}

/// A candidate has proved itself only by an end with success, in time.
pub proof fn law_candidate_proves_itself(end: ProbeEnd, usable: bool)
    requires
        call_ensures(probe_pnpm, (end,), usable),
    ensures
        usable <==> (end matches ProbeEnd::Exited { success } && success),
{
}

/// What a command says of itself is what its plan holds.
pub proof fn law_plan_is_what_it_says(plan: CommandPlan)
    ensures
        plan@.program == plan.program@,
        plan@.args.len() == plan.args@.len(),
        forall|i: int| 0 <= i < plan.args@.len() ==> plan@.args[i] == (#[trigger] plan.args@[i])@,
        plan.dir matches Some(dir) ==> plan@.dir == Some(dir@),
        plan.dir is None ==> plan@.dir is None,
        plan@.env.len() == plan.env@.len(),
        forall|i: int|
            0 <= i < plan.env@.len() ==> plan@.env[i] == ((#[trigger] plan.env@[i]).0@, plan.env@[i].1@),
        plan@.stdin == plan.stdin,
        plan@.stdout == plan.stdout,
        plan@.stderr == plan.stderr,
        plan@.own_group == plan.own_group,
{
}

/// The two commands that end processes, in words.
pub proof fn law_ending_commands_in_words(pid: u32, tree: CommandPlan, group: CommandPlan)
    requires
        call_ensures(taskkill_command, (pid,), tree),
        call_ensures(group_kill_command, (pid,), group),
    ensures
        tree@.program == "taskkill"@,
        tree@.args == seq!["/T"@, "/F"@, "/PID"@, digits(pid as nat)],
        group@.program == "kill"@,
        group@.args == seq!["-s"@, "KILL"@, "--"@, seq!['-'] + digits(pid as nat)],
        tree@.stdout == Stream::Null && tree@.stderr == Stream::Null,
        group@.stdout == Stream::Null && group@.stderr == Stream::Null,
        !tree@.own_group && !group@.own_group,
{
    reveal_strlit("-");
    assert("-"@ =~= seq!['-']);
}

} // verus!
