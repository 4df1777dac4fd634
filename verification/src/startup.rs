//! From the wish to use the service to a window that shows it: starting the process, waiting for
//! the service, and the whole course of a start.

use vstd::prelude::*;

use crate::command::dsh_start;
use crate::command::start_command;
use crate::command::CommandPlan;
use crate::command::Stream;
use crate::page::Notice;
use crate::page::STARTUP_TIMEOUT_S;
use crate::port::CHECK_INTERVAL_MS;
use crate::port::PORT_FREE_TRIES;

verus! {

/// How many more seconds the shell waits for an address once the service answers.
pub const TOKEN_GRACE_S: u64 = 5;

/// How often a process that ended too early is started again.
pub const MAX_RESPAWN: u32 = 1;

// ---------------------------------------------------------------------------
// Starting the process
// ---------------------------------------------------------------------------

/// What has happened in the course of starting the process.
#[derive(Debug)]
pub enum StartEvent {
    /// A start is wanted.
    Wanted,
    /// The shell's own earlier process has been ended.
    OwnEnded,
    /// The captured address has been forgotten.
    TokenForgotten,
    /// The port was looked at.
    PortSeen { listening: bool },
    /// The holders of the port have been told to end.
    OccupantsTold,
    /// The wait for the port is over.
    PortAwaited { free: bool },
    /// A pnpm command was found.
    PnpmFound { pnpm: String, dsh_dir: String },
    /// The process was started, or could not be.
    Spawned { ok: bool },
}

/// The next step of starting the process.
#[derive(Debug)]
pub enum StartStep {
    /// End the shell's own earlier process.
    EndOwn,
    /// Forget the captured address.
    ForgetToken,
    /// Look whether the port is taken.
    LookAtPort,
    /// Tell the holders of the port to end.
    EndOccupants,
    /// Wait for the port, with so many looks.
    AwaitPort { tries: u64 },
    /// Find a pnpm command.
    FindPnpm,
    /// Start the process.
    Spawn { command: CommandPlan },
    /// It is over.
    Done { end: StartEnd },
}

/// How a start ended.
#[derive(Clone, Copy, Debug, PartialEq, Eq, Structural)]
pub enum StartEnd {
    /// The process was started.
    Started,
    /// The port is still held.
    PortHeld,
    /// The process could not be started.
    SpawnFailed,
}

/// `step` follows `event`.
pub open spec fn follows(event: StartEvent, step: StartStep) -> bool {
    match event {
        StartEvent::Wanted => step is EndOwn,
        StartEvent::OwnEnded => step is ForgetToken,
        StartEvent::TokenForgotten => step is LookAtPort,
        StartEvent::PortSeen { listening } => if listening {
            step is EndOccupants
        } else {
            step is FindPnpm
        },
        StartEvent::OccupantsTold => step == (StartStep::AwaitPort { tries: PORT_FREE_TRIES }),
        StartEvent::PortAwaited { free } => if free {
            step is FindPnpm
        } else {
            step == (StartStep::Done { end: StartEnd::PortHeld })
        },
        StartEvent::PnpmFound { pnpm, dsh_dir } => step matches StartStep::Spawn { command }
            && command@ == dsh_start(pnpm@, dsh_dir@),
        StartEvent::Spawned { ok } => step == (StartStep::Done {
            end: if ok {
                StartEnd::Started
            } else {
                StartEnd::SpawnFailed
            },
        }),
    }
}

/// What follows in the course of starting the process. A port that is not freed ends it: a new
/// process could not serve there.
pub fn start_dsh_process(event: StartEvent) -> (step: StartStep)
    ensures
        follows(event, step),
{
    match event {
        StartEvent::Wanted => StartStep::EndOwn,
        StartEvent::OwnEnded => StartStep::ForgetToken,
        StartEvent::TokenForgotten => StartStep::LookAtPort,
        StartEvent::PortSeen { listening } => {
            if listening {
                StartStep::EndOccupants
            } else {
                StartStep::FindPnpm
            }
        },
        StartEvent::OccupantsTold => StartStep::AwaitPort { tries: PORT_FREE_TRIES },
        StartEvent::PortAwaited { free } => {
            if free {
                StartStep::FindPnpm
            } else {
                StartStep::Done { end: StartEnd::PortHeld }
            }
        },
        StartEvent::PnpmFound { pnpm, dsh_dir } => StartStep::Spawn {
            command: start_command(pnpm.as_str(), dsh_dir.as_str()),
        },
        StartEvent::Spawned { ok } => {
            if ok {
                StartStep::Done { end: StartEnd::Started }
            } else {
                StartStep::Done { end: StartEnd::SpawnFailed }
            }
        },
    }
}

/// `event` is an outcome of `step`.
pub open spec fn answers(step: StartStep, event: StartEvent) -> bool {
    match step {
        StartStep::EndOwn => event is OwnEnded,
        StartStep::ForgetToken => event is TokenForgotten,
        StartStep::LookAtPort => event is PortSeen,
        StartStep::EndOccupants => event is OccupantsTold,
        StartStep::AwaitPort { .. } => event is PortAwaited,
        StartStep::FindPnpm => event is PnpmFound,
        StartStep::Spawn { .. } => event is Spawned,
        StartStep::Done { .. } => false,
    }
}

/// A course of a start: it begins with the wish, each step follows its event, and each event is the
/// outcome of the step before.
pub open spec fn is_course(events: Seq<StartEvent>, steps: Seq<StartStep>) -> bool {
    &&& events.len() == steps.len()
    &&& events.len() > 0
    &&& events[0] is Wanted
    &&& forall|i: int| 0 <= i < events.len() ==> follows(#[trigger] events[i], steps[i])
    &&& forall|i: int| 0 < i < events.len() ==> answers(steps[i - 1], #[trigger] events[i])
}

/// Every course begins by ending the earlier process, forgetting the address that died with it, and
/// looking at the port.
pub proof fn law_start_clears_the_past(events: Seq<StartEvent>, steps: Seq<StartStep>, i: int)
    requires
        is_course(events, steps),
        0 <= i < steps.len(),
        steps[i] is Spawn || steps[i] is FindPnpm || steps[i] is Done,
    ensures
        i >= 3,
        steps[0] is EndOwn,
        steps[1] is ForgetToken,
        steps[2] is LookAtPort,
{
    assert(follows(events[0], steps[0]));
    if steps.len() > 1 {
        assert(follows(events[1], steps[1]));
        assert(answers(steps[0], events[1]));
    }
    if steps.len() > 2 {
        assert(follows(events[2], steps[2]));
        assert(answers(steps[1], events[2]));
    }
}

/// A process is started only if the port was seen free: at the first look, or by the wait after its
/// holders were told to end.
pub proof fn law_no_start_on_a_taken_port(events: Seq<StartEvent>, steps: Seq<StartStep>, i: int)
    requires
        is_course(events, steps),
        0 <= i < steps.len(),
        steps[i] is Spawn,
    ensures
        i >= 2,
        events[i - 1] == (StartEvent::PortSeen { listening: false }) || events[i - 1] == (
        StartEvent::PortAwaited { free: true }),
{
    assert(follows(events[i], steps[i]));
    if i > 0 {
        assert(answers(steps[i - 1], events[i]));
        assert(follows(events[i - 1], steps[i - 1]));
        if i > 1 {
            assert(answers(steps[i - 2], events[i - 1]));
        }
    }
}

/// The end of a course tells what happened: the port was not freed, or the process was started, or
/// it could not be.
pub proof fn law_end_tells_what_happened(events: Seq<StartEvent>, steps: Seq<StartStep>, i: int)
    requires
        is_course(events, steps),
        0 <= i < steps.len(),
        steps[i] is Done,
    ensures
        steps[i]->end == StartEnd::Started <==> events[i] == (StartEvent::Spawned { ok: true }),
        steps[i]->end == StartEnd::SpawnFailed <==> events[i] == (StartEvent::Spawned { ok: false }),
        steps[i]->end == StartEnd::PortHeld <==> events[i] == (StartEvent::PortAwaited {
            free: false,
        }),
{
    assert(follows(events[i], steps[i]));
}

/// Every course is over after at most eight steps.
pub proof fn law_start_is_short(events: Seq<StartEvent>, steps: Seq<StartStep>)
    requires
        is_course(events, steps),
    ensures
        steps.len() <= 8,
{
    if steps.len() > 8 {
        assert(follows(events[0], steps[0]));
        assert(follows(events[1], steps[1]));
        assert(follows(events[2], steps[2]));
        assert(follows(events[3], steps[3]));
        assert(follows(events[4], steps[4]));
        assert(follows(events[5], steps[5]));
        assert(follows(events[6], steps[6]));
        assert(follows(events[7], steps[7]));
        assert(follows(events[8], steps[8]));
    }
}

// ---------------------------------------------------------------------------
// Whether the process is still there
// ---------------------------------------------------------------------------

/// What a look at the shell's own process has brought.
#[derive(Debug)]
pub enum ChildState {
    /// There is none, or it is just being ended.
    Absent,
    /// It runs.
    Running,
    /// It could not be looked at.
    Unknown,
    /// It has ended; this describes how.
    Exited { status: String },
}

/// How the process ended, if it is known to have ended by itself. A process that could not be
/// looked at counts as running.
pub fn process_exited(child: ChildState) -> (status: Option<String>)
    ensures
        status == (match child {
            ChildState::Exited { status } => Some(status),
            _ => None,
        }),
{
    match child {
        ChildState::Exited { status } => Some(status),
        _ => None,
    }
}

// ---------------------------------------------------------------------------
// Waiting for the service
// ---------------------------------------------------------------------------

/// How long, in seconds, a single look at the service may take.
pub const SERVICE_PROBE_TIMEOUT_S: u64 = 3;

/// What a look at the service has brought.
#[derive(Clone, Copy, Debug, PartialEq, Eq, Structural)]
pub enum ServiceReply {
    /// No answer in time.
    TimedOut,
    /// No connection, or a broken one.
    Failed,
    /// An answer, with its status.
    Answered { status: u16 },
}

/// Whether the service is up: any answer shows that it is, a refusal too.
pub fn is_dsh_running(reply: ServiceReply) -> (up: bool)
    ensures
        up == (reply is Answered),
{
    match reply {
        ServiceReply::Answered { .. } => true,
        _ => false,
    }
}

/// How the wait for the service ended.
#[derive(Debug)]
pub enum DshOutcome {
    /// The service answers; this tells whether an address has been captured.
    Ready { has_token: bool },
    /// The service never answered.
    Timeout,
    /// The process ended before; this describes how.
    ProcessDied { status: String },
}

/// The next step of the wait for the service.
#[derive(Debug)]
pub enum ReadyStep {
    /// Wait for this many milliseconds.
    Sleep { millis: u64 },
    /// Look whether the service answers.
    ProbeService,
    /// Look whether an address has been captured.
    LookForToken,
    /// Look whether the process has ended.
    CheckExit,
    /// Read whether an address has been captured, for the result.
    ReadToken,
    /// The wait is over.
    Done { outcome: DshOutcome },
}

/// The wait for the service: the whole seconds since it began, as far as they are known, and, once
/// the service has answered, how many seconds have been spent waiting for an address.
#[derive(Clone, Copy, Debug, PartialEq, Eq, Structural)]
pub struct ReadyWait {
    pub elapsed: u64,
    pub grace: Option<u64>,
}

impl ReadyWait {
    /// The wait as it begins.
    pub open spec fn begun() -> ReadyWait {
        ReadyWait { elapsed: 0, grace: None }
    }

    /// How many seconds are left for the service to answer.
    pub open spec fn left(self) -> nat {
        if self.elapsed < STARTUP_TIMEOUT_S {
            (STARTUP_TIMEOUT_S - self.elapsed) as nat
        } else {
            0
        }
    }

    /// The step that begins another second of waiting, or the end.
    pub open spec fn due(self) -> ReadyStep {
        match self.grace {
            None => if self.elapsed < STARTUP_TIMEOUT_S {
                ReadyStep::Sleep { millis: CHECK_INTERVAL_MS }
            } else {
                ReadyStep::Done { outcome: DshOutcome::Timeout }
            },
            Some(grace) => if grace < TOKEN_GRACE_S {
                ReadyStep::LookForToken
            } else {
                ReadyStep::ReadToken
            },
        }
    }

    /// The seconds at the end of a pause, by what the clock shows: a pause lasts a second at least.
    pub open spec fn woken(self, since_start_s: u64) -> u64 {
        if since_start_s > self.elapsed {
            since_start_s
        } else if self.elapsed < u64::MAX {
            (self.elapsed + 1) as u64
        } else {
            self.elapsed
        }
    }

    /// The wait after a pause.
    pub open spec fn after_pause(self, since_start_s: u64) -> ReadyWait {
        ReadyWait {
            elapsed: self.woken(since_start_s),
            grace: match self.grace {
                None => None,
                Some(grace) => Some(
                    if grace < TOKEN_GRACE_S {
                        (grace + 1) as u64
                    } else {
                        grace
                    },
                ),
            },
        }
    }

    /// The step after a pause.
    pub open spec fn pause_leads_to(self, since_start_s: u64) -> ReadyStep {
        match self.grace {
            None => ReadyStep::ProbeService,
            Some(_) => self.after_pause(since_start_s).due(),
        }
    }

    /// The wait after a look at the service.
    pub open spec fn after_probe(self, answers: bool, since_start_s: u64) -> ReadyWait {
        ReadyWait {
            elapsed: if since_start_s > self.elapsed {
                since_start_s
            } else {
                self.elapsed
            },
            grace: if answers {
                Some(0)
            } else {
                self.grace
            },
        }
    }

    /// The step after a look at the process.
    pub open spec fn exit_leads_to(self, status: Option<String>) -> ReadyStep {
        match status {
            Some(status) => ReadyStep::Done { outcome: DshOutcome::ProcessDied { status } },
            None => match self.grace {
                None => self.due(),
                Some(_) => ReadyStep::Sleep { millis: CHECK_INTERVAL_MS },
            },
        }
    }

    /// Begins the wait.
    pub fn new() -> (begun: (ReadyWait, ReadyStep))
        ensures
            begun.0 == ReadyWait::begun(),
            begun.1 == begun.0.due(),
    {
        let wait = ReadyWait { elapsed: 0, grace: None };
        let step = wait.due_step();
        (wait, step)
    }

    fn due_step(&self) -> (step: ReadyStep)
        ensures
            step == self.due(),
    {
        match self.grace {
            None => {
                if self.elapsed < STARTUP_TIMEOUT_S {
                    ReadyStep::Sleep { millis: CHECK_INTERVAL_MS }
                } else {
                    ReadyStep::Done { outcome: DshOutcome::Timeout }
                }
            },
            Some(grace) => {
                if grace < TOKEN_GRACE_S {
                    ReadyStep::LookForToken
                } else {
                    ReadyStep::ReadToken
                }
            },
        }
    }

    /// Goes on after a pause, with the whole seconds since the wait began.
    pub fn slept(&mut self, since_start_s: u64) -> (step: ReadyStep)
        ensures
            *final(self) == old(self).after_pause(since_start_s),
            step == old(self).pause_leads_to(since_start_s),
    {
        if since_start_s > self.elapsed {
            self.elapsed = since_start_s;
        } else if self.elapsed < u64::MAX {
            self.elapsed = self.elapsed + 1;
        }
        match self.grace {
            None => ReadyStep::ProbeService,
            Some(grace) => {
                if grace < TOKEN_GRACE_S {
                    self.grace = Some(grace + 1);
                }
                self.due_step()
            },
        }
    }

    /// Goes on after the look at the service, with the whole seconds since the wait began: the look
    /// itself may have taken some. Any answer counts, a refusal too.
    pub fn service_probed(&mut self, answers: bool, since_start_s: u64) -> (step: ReadyStep)
        ensures
            *final(self) == old(self).after_probe(answers, since_start_s),
            step == (if answers {
                old(self).after_probe(answers, since_start_s).due()
            } else {
                ReadyStep::CheckExit
            }),
    {
        if since_start_s > self.elapsed {
            self.elapsed = since_start_s;
        }
        if answers {
            self.grace = Some(0);
            self.due_step()
        } else {
            ReadyStep::CheckExit
        }
    }

    /// Goes on after the look for an address.
    pub fn token_looked_for(&self, found: bool) -> (step: ReadyStep)
        ensures
            step == (if found {
                ReadyStep::ReadToken
            } else {
                ReadyStep::CheckExit
            }),
    {
        if found {
            ReadyStep::ReadToken
        } else {
            ReadyStep::CheckExit
        }
    }

    /// Goes on after the look at the process.
    pub fn exit_checked(&self, status: Option<String>) -> (step: ReadyStep)
        ensures
            step == self.exit_leads_to(status),
    {
        match status {
            Some(status) => ReadyStep::Done { outcome: DshOutcome::ProcessDied { status } },
            None => match self.grace {
                None => self.due_step(),
                Some(_) => ReadyStep::Sleep { millis: CHECK_INTERVAL_MS },
            },
        }
    }

    /// Ends the wait with what was read.
    pub fn token_read(&self, has_token: bool) -> (step: ReadyStep)
        ensures
            step == (ReadyStep::Done { outcome: DshOutcome::Ready { has_token } }),
    {
        ReadyStep::Done { outcome: DshOutcome::Ready { has_token } }
    }

    /// Whether the progress of the wait is worth a line in the log: in every fifth second.
    pub fn reports_progress(&self) -> (yes: bool)
        ensures
            yes == (self.elapsed % 5 == 0),
    {
        self.elapsed % 5 == 0
    }
}

/// What a look at the service, and at the process behind it, shows, and the second in which it is
/// over.
pub struct Poll {
    pub answers: bool,
    pub exit: Option<String>,
    pub over: u64,
}

/// What a second of waiting for an address shows.
pub struct GraceLook {
    pub found: bool,
    pub exit: Option<String>,
}

/// All that the world shows in the course of a wait: the second in which a pause is over that begins
/// in second `t`, what a look at the service shows that begins in second `t`, each second of waiting
/// for an address, and whether an address is there at the end.
pub struct World {
    pub wakes: spec_fn(u64) -> u64,
    pub polls: spec_fn(u64) -> Poll,
    pub looks: spec_fn(int) -> GraceLook,
    pub has_token: bool,
}

/// How a wait for an address ends that has come to `wait`, and in which second.
pub open spec fn grace_end(wait: ReadyWait, world: World) -> (DshOutcome, u64)
    decreases TOKEN_GRACE_S - wait.grace->0,
{
    match wait.due() {
        ReadyStep::LookForToken => {
            let look = (world.looks)(wait.grace->0 as int);
            if look.found {
                (DshOutcome::Ready { has_token: world.has_token }, wait.elapsed)
            } else {
                match wait.exit_leads_to(look.exit) {
                    ReadyStep::Done { outcome } => (outcome, wait.elapsed),
                    _ => grace_end(wait.after_pause((world.wakes)(wait.elapsed)), world),
                }
            }
        },
        _ => (DshOutcome::Ready { has_token: world.has_token }, wait.elapsed),
    }
}

/// How a wait for the service ends that has come to `wait`, and in which second.
pub open spec fn ready_end(wait: ReadyWait, world: World) -> (DshOutcome, u64)
    decreases wait.left(),
{
    match wait.due() {
        ReadyStep::Sleep { .. } => {
            let awake = wait.after_pause((world.wakes)(wait.elapsed));
            let poll = (world.polls)(awake.elapsed);
            let next = awake.after_probe(poll.answers, poll.over);
            if poll.answers {
                grace_end(next, world)
            } else {
                match next.exit_leads_to(poll.exit) {
                    ReadyStep::Done { outcome } => (outcome, next.elapsed),
                    _ => ready_end(next, world),
                }
            }
        },
        _ => (DshOutcome::Timeout, wait.elapsed),
    }
}

/// The seconds in which looks at the service begin, as long as they show nothing, for a wait that
/// has come to `wait`.
pub open spec fn poll_seconds(wait: ReadyWait, world: World) -> Seq<u64>
    decreases wait.left(),
{
    match wait.due() {
        ReadyStep::Sleep { .. } => {
            let awake = wait.after_pause((world.wakes)(wait.elapsed));
            let next = awake.after_probe(false, (world.polls)(awake.elapsed).over);
            seq![awake.elapsed] + poll_seconds(next, world)
        },
        _ => Seq::empty(),
    }
}

/// The look shows nothing: no answer, and a process that has not ended.
pub open spec fn is_quiet(poll: Poll) -> bool {
    !poll.answers && poll.exit is None
}

/// Nothing happens in this second of waiting for an address.
pub open spec fn is_idle(look: GraceLook) -> bool {
    !look.found && look.exit is None
}

/// No pause takes more than `pause` seconds, and no look at the service more than `probe`.
pub open spec fn keeps_time(world: World, pause: nat, probe: nat) -> bool {
    &&& pause >= 1
    &&& forall|t: u64| #[trigger] (world.wakes)(t) <= t + pause
    &&& forall|t: u64| (#[trigger] (world.polls)(t)).over <= t + probe
}

proof fn lemma_first_event(wait: ReadyWait, world: World, k: int)
    requires
        wait.grace is None,
        0 <= k <= poll_seconds(wait, world).len(),
        forall|i: int|
            0 <= i < k ==> is_quiet((world.polls)(#[trigger] poll_seconds(wait, world)[i])),
        k < poll_seconds(wait, world).len() ==> !is_quiet(
            (world.polls)(poll_seconds(wait, world)[k]),
        ),
    ensures
        k == poll_seconds(wait, world).len() ==> ready_end(wait, world).0 is Timeout,
        k < poll_seconds(wait, world).len() ==> {
            let second = poll_seconds(wait, world)[k];
            let poll = (world.polls)(second);
            &&& poll.answers ==> ready_end(wait, world) == grace_end(
                ReadyWait { elapsed: second, grace: None }.after_probe(true, poll.over),
                world,
            )
            &&& !poll.answers ==> ready_end(wait, world).0 == (DshOutcome::ProcessDied {
                status: poll.exit->0,
            })
        },
    decreases wait.left(),
{
    if wait.elapsed < STARTUP_TIMEOUT_S {
        let secs = poll_seconds(wait, world);
        let awake = wait.after_pause((world.wakes)(wait.elapsed));
        let poll = (world.polls)(awake.elapsed);
        let next = awake.after_probe(false, poll.over);
        let rest = poll_seconds(next, world);
        assert(secs[0] == awake.elapsed);
        assert forall|i: int| 0 <= i < rest.len() implies #[trigger] rest[i] == secs[i + 1] by {}
        if k > 0 {
            assert(is_quiet((world.polls)(secs[0])));
            assert forall|i: int| 0 <= i < k - 1 implies is_quiet(
                (world.polls)(#[trigger] rest[i]),
            ) by {
                assert(is_quiet((world.polls)(secs[i + 1])));
            }
            if k < secs.len() {
                assert(rest[k - 1] == secs[k]);
            }
            lemma_first_event(next, world, k - 1);
            if next.elapsed >= STARTUP_TIMEOUT_S {
                assert(ready_end(next, world) == (DshOutcome::Timeout, next.elapsed));
            }
        }
    }
}

proof fn lemma_grace_never_times_out(wait: ReadyWait, world: World)
    requires
        wait.grace is Some,
    ensures
        !(grace_end(wait, world).0 is Timeout),
    decreases TOKEN_GRACE_S - wait.grace->0,
{
    if wait.grace->0 < TOKEN_GRACE_S {
        lemma_grace_never_times_out(wait.after_pause((world.wakes)(wait.elapsed)), world);
    }
}

/// The first look that shows an answer or an end of the process decides: an answer opens the wait
/// for an address and wins over an end in the same look; an end without an answer is the outcome.
pub proof fn law_first_event_decides(world: World, k: int)
    requires
        0 <= k < poll_seconds(ReadyWait::begun(), world).len(),
        forall|i: int|
            0 <= i < k ==> is_quiet(
                (world.polls)(#[trigger] poll_seconds(ReadyWait::begun(), world)[i]),
            ),
        !is_quiet((world.polls)(poll_seconds(ReadyWait::begun(), world)[k])),
    ensures
        ({
            let second = poll_seconds(ReadyWait::begun(), world)[k];
            let poll = (world.polls)(second);
            let end = ready_end(ReadyWait::begun(), world);
            &&& poll.answers ==> end == grace_end(
                ReadyWait { elapsed: second, grace: None }.after_probe(true, poll.over),
                world,
            )
            &&& !poll.answers ==> end.0 == (DshOutcome::ProcessDied { status: poll.exit->0 })
            &&& !(end.0 is Timeout)
        }),
{
    lemma_first_event(ReadyWait::begun(), world, k);
    let second = poll_seconds(ReadyWait::begun(), world)[k];
    lemma_grace_never_times_out(
        ReadyWait { elapsed: second, grace: None }.after_probe(
            true,
            (world.polls)(second).over,
        ),
        world,
    );
}

proof fn lemma_loud_second(world: World, secs: Seq<u64>, from: int, k: int) -> (first: int)
    requires
        0 <= from <= k < secs.len(),
        forall|i: int| 0 <= i < from ==> is_quiet((world.polls)(#[trigger] secs[i])),
        !is_quiet((world.polls)(secs[k])),
    ensures
        from <= first <= k,
        forall|i: int| 0 <= i < first ==> is_quiet((world.polls)(#[trigger] secs[i])),
        !is_quiet((world.polls)(secs[first])),
    decreases k - from,
{
    if is_quiet((world.polls)(secs[from])) {
        lemma_loud_second(world, secs, from + 1, k)
    } else {
        from
    }
}

/// The wait ends without an answer if and only if no look at the service shows anything.
pub proof fn law_timeout_means_silence(world: World)
    ensures
        ready_end(ReadyWait::begun(), world).0 is Timeout <==> forall|i: int|
            0 <= i < poll_seconds(ReadyWait::begun(), world).len() ==> is_quiet(
                (world.polls)(#[trigger] poll_seconds(ReadyWait::begun(), world)[i]),
            ),
{
    let secs = poll_seconds(ReadyWait::begun(), world);
    if forall|i: int| 0 <= i < secs.len() ==> is_quiet((world.polls)(#[trigger] secs[i])) {
        lemma_first_event(ReadyWait::begun(), world, secs.len() as int);
    } else {
        let k = choose|i: int|
            0 <= i < secs.len() && !is_quiet((world.polls)(#[trigger] secs[i]));
        let first = lemma_loud_second(world, secs, 0, k);
        law_first_event_decides(world, first);
    }
}

/// The looks of `secs` follow each other closely enough to cover the time up to the limit.
pub open spec fn covers_the_time(secs: Seq<u64>, from: int, pause: nat, probe: nat) -> bool {
    &&& secs.len() > 0
    &&& from < secs[0] <= from + pause
    &&& forall|i: int, j: int|
        0 <= i && j == i + 1 && j < secs.len() ==> #[trigger] secs[i] < #[trigger] secs[j] <= secs[i]
            + probe + pause
    &&& STARTUP_TIMEOUT_S - probe <= secs.last() < STARTUP_TIMEOUT_S + pause
}

proof fn lemma_poll_seconds(wait: ReadyWait, world: World, pause: nat, probe: nat)
    requires
        wait.grace is None,
        wait.elapsed < STARTUP_TIMEOUT_S,
        keeps_time(world, pause, probe),
    ensures
        covers_the_time(poll_seconds(wait, world), wait.elapsed as int, pause, probe),
    decreases wait.left(),
{
    let secs = poll_seconds(wait, world);
    let awake = wait.after_pause((world.wakes)(wait.elapsed));
    let next = awake.after_probe(false, (world.polls)(awake.elapsed).over);
    let rest = poll_seconds(next, world);
    assert(secs[0] == awake.elapsed);
    if next.elapsed < STARTUP_TIMEOUT_S {
        lemma_poll_seconds(next, world, pause, probe);
        assert(secs.last() == rest.last());
        assert forall|i: int, j: int| 0 <= i && j == i + 1 && j < secs.len() implies #[trigger] secs[i]
            < #[trigger] secs[j] <= secs[i] + probe + pause by {
            assert(secs[j] == rest[j - 1]);
            if i > 0 {
                assert(secs[i] == rest[i - 1]);
            }
        }
    } else {
        assert(secs =~= seq![awake.elapsed]);
    }
}

/// The looks at the service cover the whole time: the first comes after one pause, each begins no
/// later than a pause after the one before is over, and the last is not over before the limit.
pub proof fn law_looks_cover_the_time(world: World, pause: nat, probe: nat)
    requires
        keeps_time(world, pause, probe),
    ensures
        covers_the_time(poll_seconds(ReadyWait::begun(), world), 0, pause, probe),
{
    lemma_poll_seconds(ReadyWait::begun(), world, pause, probe);
}

/// A service that comes up for good before the last look can begin is never given up.
pub proof fn law_lasting_service_is_not_missed(world: World, pause: nat, probe: nat, up: u64)
    requires
        keeps_time(world, pause, probe),
        up + probe <= STARTUP_TIMEOUT_S,
        forall|t: u64| t >= up ==> (#[trigger] (world.polls)(t)).answers,
    ensures
        !(ready_end(ReadyWait::begun(), world).0 is Timeout),
{
    law_looks_cover_the_time(world, pause, probe);
    law_timeout_means_silence(world);
    let secs = poll_seconds(ReadyWait::begun(), world);
    assert(secs[secs.len() - 1] >= up);
    assert((world.polls)(secs[secs.len() - 1]).answers);
}

proof fn lemma_prompt_seconds(wait: ReadyWait, world: World)
    requires
        wait.grace is None,
        wait.elapsed <= STARTUP_TIMEOUT_S,
        keeps_time(world, 1, 0),
    ensures
        poll_seconds(wait, world).len() == STARTUP_TIMEOUT_S - wait.elapsed,
        forall|i: int|
            0 <= i < poll_seconds(wait, world).len() ==> #[trigger] poll_seconds(wait, world)[i]
                == wait.elapsed + 1 + i,
    decreases wait.left(),
{
    if wait.elapsed < STARTUP_TIMEOUT_S {
        let secs = poll_seconds(wait, world);
        let awake = wait.after_pause((world.wakes)(wait.elapsed));
        let next = awake.after_probe(false, (world.polls)(awake.elapsed).over);
        lemma_prompt_seconds(next, world);
        let rest = poll_seconds(next, world);
        assert forall|i: int| 0 <= i < secs.len() implies #[trigger] secs[i] == wait.elapsed + 1
            + i by {
            if i > 0 {
                assert(secs[i] == rest[i - 1]);
            }
        }
    }
}

/// Where every look brings its result at once, the service is looked at in every second up to the
/// limit, and the wait ends without an answer if and only if all of these seconds are silent.
pub proof fn law_silence_second_by_second(world: World)
    requires
        keeps_time(world, 1, 0),
    ensures
        ready_end(ReadyWait::begun(), world).0 is Timeout <==> forall|t: u64|
            1 <= t <= STARTUP_TIMEOUT_S ==> is_quiet(#[trigger] (world.polls)(t)),
{
    let secs = poll_seconds(ReadyWait::begun(), world);
    lemma_prompt_seconds(ReadyWait::begun(), world);
    law_timeout_means_silence(world);
    if ready_end(ReadyWait::begun(), world).0 is Timeout {
        assert forall|t: u64| 1 <= t <= STARTUP_TIMEOUT_S implies is_quiet(
            #[trigger] (world.polls)(t),
        ) by {
            assert(secs[t - 1] == t);
        }
    }
}

proof fn lemma_idle_looks(wait: ReadyWait, world: World, k: int)
    requires
        wait.grace is Some,
        wait.grace->0 <= k <= TOKEN_GRACE_S,
        forall|i: int| wait.grace->0 <= i < k ==> is_idle(#[trigger] (world.looks)(i)),
        k < TOKEN_GRACE_S ==> !is_idle((world.looks)(k)),
    ensures
        grace_end(wait, world).0 == (if k < TOKEN_GRACE_S && !(world.looks)(k).found {
            DshOutcome::ProcessDied { status: (world.looks)(k).exit->0 }
        } else {
            DshOutcome::Ready { has_token: world.has_token }
        }),
    decreases k - wait.grace->0,
{
    if wait.grace->0 < k {
        assert(is_idle((world.looks)(wait.grace->0 as int)));
        lemma_idle_looks(wait.after_pause((world.wakes)(wait.elapsed)), world, k);
    }
}

/// Once the service answers, the wait ends with it ready: as soon as an address is found, or when
/// the seconds of grace are over; unless the process ends before.
pub proof fn law_grace_waits_for_the_address(elapsed: u64, world: World, k: int)
    requires
        0 <= k <= TOKEN_GRACE_S,
        forall|i: int| 0 <= i < k ==> is_idle(#[trigger] (world.looks)(i)),
        k < TOKEN_GRACE_S ==> !is_idle((world.looks)(k)),
    ensures
        grace_end(ReadyWait { elapsed, grace: Some(0) }, world).0 == (if k < TOKEN_GRACE_S
            && !(world.looks)(k).found {
            DshOutcome::ProcessDied { status: (world.looks)(k).exit->0 }
        } else {
            DshOutcome::Ready { has_token: world.has_token }
        }),
{
    lemma_idle_looks(ReadyWait { elapsed, grace: Some(0) }, world, k);
}

proof fn lemma_grace_is_bounded(wait: ReadyWait, world: World, pause: nat, probe: nat)
    requires
        wait.grace is Some,
        wait.grace->0 <= TOKEN_GRACE_S,
        keeps_time(world, pause, probe),
    ensures
        grace_end(wait, world).1 <= wait.elapsed + (TOKEN_GRACE_S - wait.grace->0) * pause,
    decreases TOKEN_GRACE_S - wait.grace->0,
{
    let rest = TOKEN_GRACE_S - wait.grace->0;
    if rest > 0 {
        lemma_grace_is_bounded(
            wait.after_pause((world.wakes)(wait.elapsed)),
            world,
            pause,
            probe,
        );
        assert(rest * pause == (rest - 1) * pause + pause) by (nonlinear_arith);
        assert(0 <= (rest - 1) * pause) by (nonlinear_arith)
            requires
                rest > 0,
        ;
    } else {
        assert(rest * pause == 0) by (nonlinear_arith)
            requires
                rest == 0,
        ;
    }
}

proof fn lemma_wait_is_bounded(wait: ReadyWait, world: World, pause: nat, probe: nat)
    requires
        wait.grace is None,
        wait.elapsed < STARTUP_TIMEOUT_S,
        keeps_time(world, pause, probe),
    ensures
        ready_end(wait, world).0 is Timeout ==> STARTUP_TIMEOUT_S <= ready_end(wait, world).1
            < STARTUP_TIMEOUT_S + pause + probe,
        ready_end(wait, world).1 < STARTUP_TIMEOUT_S + pause + probe + TOKEN_GRACE_S * pause,
    decreases wait.left(),
{
    let awake = wait.after_pause((world.wakes)(wait.elapsed));
    let poll = (world.polls)(awake.elapsed);
    let next = awake.after_probe(poll.answers, poll.over);
    assert(next.elapsed < STARTUP_TIMEOUT_S + pause + probe);
    if poll.answers {
        lemma_grace_never_times_out(next, world);
        lemma_grace_is_bounded(next, world, pause, probe);
    } else if next.elapsed < STARTUP_TIMEOUT_S {
        lemma_wait_is_bounded(next, world, pause, probe);
    }
}

/// The wait for the service keeps to its time, counted in seconds: it is not given up before the
/// limit, and no later than one pause and one look behind it, however long the looks before took;
/// and the wait for an address adds no more than its pauses.
pub proof fn law_wait_is_bounded(world: World, pause: nat, probe: nat)
    requires
        keeps_time(world, pause, probe),
    ensures
        ready_end(ReadyWait::begun(), world).0 is Timeout ==> STARTUP_TIMEOUT_S <= ready_end(
            ReadyWait::begun(),
            world,
        ).1 < STARTUP_TIMEOUT_S + pause + probe,
        ready_end(ReadyWait::begun(), world).1 < STARTUP_TIMEOUT_S + pause + probe + TOKEN_GRACE_S
            * pause,
{
    lemma_wait_is_bounded(ReadyWait::begun(), world, pause, probe);
}

// ---------------------------------------------------------------------------
// The whole course
// ---------------------------------------------------------------------------

/// The next step on the way to a window that shows the service.
#[derive(Debug)]
pub enum BootStep {
    /// Look whether a service answers already.
    ProbeService,
    /// Show the service of an instance that the shell did not start, and check that instance.
    YieldToExternal,
    /// Start the process. `flush` tells whether the latest output is written out before.
    Start { flush: bool },
    /// Wait for the service.
    AwaitReady,
    /// Show the service; the course is over.
    Navigate { has_token: bool, flush: bool },
    /// Show a notice, and leave the window where it is; the course is over.
    Fail { notice: Notice, flush: bool },
}

/// The course so far: how often a process that ended too early has been started again.
#[derive(Clone, Copy, Debug, PartialEq, Eq, Structural)]
pub struct Boot {
    pub attempts: u32,
}

impl Boot {
    /// The first step.
    pub open spec fn first(force_restart: bool) -> BootStep {
        if force_restart {
            BootStep::Start { flush: false }
        } else {
            BootStep::ProbeService
        }
    }

    /// The step after the look at the service.
    pub open spec fn service_leads_to(running: bool) -> BootStep {
        if running {
            BootStep::YieldToExternal
        } else {
            BootStep::Start { flush: false }
        }
    }

    /// The step after a start.
    pub open spec fn start_leads_to(end: StartEnd) -> BootStep {
        match end {
            StartEnd::Started => BootStep::AwaitReady,
            StartEnd::PortHeld => BootStep::Fail { notice: Notice::PortBlocked, flush: false },
            StartEnd::SpawnFailed => BootStep::Fail { notice: Notice::SpawnFailed, flush: false },
        }
    }

    /// The course after the wait.
    pub open spec fn after_wait(self, outcome: DshOutcome) -> Boot {
        if outcome is ProcessDied && self.attempts < MAX_RESPAWN {
            Boot { attempts: (self.attempts + 1) as u32 }
        } else {
            self
        }
    }

    /// The step after the wait.
    pub open spec fn wait_leads_to(self, outcome: DshOutcome) -> BootStep {
        match outcome {
            DshOutcome::Ready { has_token } => BootStep::Navigate { has_token, flush: !has_token },
            DshOutcome::ProcessDied { status } => if self.attempts < MAX_RESPAWN {
                BootStep::Start { flush: true }
            } else {
                BootStep::Fail {
                    notice: Notice::ProcessDied { status, attempts: self.attempts },
                    flush: true,
                }
            },
            DshOutcome::Timeout => BootStep::Fail { notice: Notice::TimedOut, flush: true },
        }
    }

    /// Begins the course. A forced restart does not ask whether a service answers already.
    pub fn check_and_start_dsh(force_restart: bool) -> (begun: (Boot, BootStep))
        ensures
            begun.0 == (Boot { attempts: 0 }),
            begun.1 == Boot::first(force_restart),
    {
        let boot = Boot { attempts: 0 };
        if force_restart {
            (boot, BootStep::Start { flush: false })
        } else {
            (boot, BootStep::ProbeService)
        }
    }

    /// Begins the course that the tray's restart entry and a takeover want.
    pub fn restart_dsh_service() -> (begun: (Boot, BootStep))
        ensures
            begun.0 == (Boot { attempts: 0 }),
            begun.1 == Boot::first(true),
    {
        Boot::check_and_start_dsh(true)
    }

    /// Goes on after the look at the service.
    pub fn service_probed(&self, running: bool) -> (step: BootStep)
        ensures
            step == Boot::service_leads_to(running),
    {
        if running {
            BootStep::YieldToExternal
        } else {
            BootStep::Start { flush: false }
        }
    }

    /// Goes on after a start. One that failed is told with its reason.
    pub fn start_ended(&self, end: StartEnd) -> (step: BootStep)
        ensures
            step == Boot::start_leads_to(end),
    {
        match end {
            StartEnd::Started => BootStep::AwaitReady,
            StartEnd::PortHeld => BootStep::Fail { notice: Notice::PortBlocked, flush: false },
            StartEnd::SpawnFailed => BootStep::Fail { notice: Notice::SpawnFailed, flush: false },
        }
    }

    /// Goes on after the wait for the service.
    pub fn wait_ended(&mut self, outcome: DshOutcome) -> (step: BootStep)
        ensures
            *final(self) == old(self).after_wait(outcome),
            step == old(self).wait_leads_to(outcome),
    {
        match outcome {
            DshOutcome::Ready { has_token } => BootStep::Navigate { has_token, flush: !has_token },
            DshOutcome::ProcessDied { status } => {
                if self.attempts < MAX_RESPAWN {
                    self.attempts = self.attempts + 1;
                    BootStep::Start { flush: true }
                } else {
                    BootStep::Fail {
                        notice: Notice::ProcessDied { status, attempts: self.attempts },
                        flush: true,
                    }
                }
            },
            DshOutcome::Timeout => BootStep::Fail { notice: Notice::TimedOut, flush: true },
        }
    }
}

/// What the tooltip tells of an address once a step is taken, where the step sets it.
pub open spec fn token_told(step: BootStep) -> Option<bool> {
    match step {
        BootStep::Navigate { has_token, .. } => Some(has_token),
        BootStep::YieldToExternal => Some(false),
        BootStep::Fail { .. } => Some(false),
        _ => None,
    }
}

/// What the tooltip tells of an address once a step is taken: an instance of another owner and a
/// failed start leave the shell without one. `None` if the step leaves the tooltip as it is.
pub fn shown_token(step: &BootStep) -> (has: Option<bool>)
    ensures
        has == token_told(*step),
{
    match step {
        BootStep::Navigate { has_token, .. } => Some(*has_token),
        BootStep::YieldToExternal => Some(false),
        BootStep::Fail { .. } => Some(false),
        _ => None,
    }
}

/// What a start, and the wait behind it, bring.
pub struct Try {
    pub end: StartEnd,
    pub outcome: DshOutcome,
}

/// The service was started and answers.
pub open spec fn is_ready(attempt: Try) -> bool {
    attempt.end == StartEnd::Started && attempt.outcome is Ready
}

/// The process was started and ended before the service answered.
pub open spec fn is_dead(attempt: Try) -> bool {
    attempt.end == StartEnd::Started && attempt.outcome is ProcessDied
}

/// How a course ends that has come to a start, and how many starts it takes from there, if start
/// number `i` brings `tries(i)`.
pub open spec fn course_end(boot: Boot, tries: spec_fn(int) -> Try) -> (BootStep, nat)
    decreases MAX_RESPAWN - boot.attempts,
{
    let attempt = tries(boot.attempts as int);
    match Boot::start_leads_to(attempt.end) {
        BootStep::AwaitReady => match boot.wait_leads_to(attempt.outcome) {
            BootStep::Start { .. } => {
                let (end, starts) = course_end(boot.after_wait(attempt.outcome), tries);
                (end, starts + 1)
            },
            end => (end, 1),
        },
        end => (end, 1),
    }
}

/// A course makes at most one start more than there are retries, and ends with the service shown or
/// a notice; a notice of a process that ended comes only after all retries.
pub proof fn law_starts_are_bounded(tries: spec_fn(int) -> Try)
    ensures
        1 <= course_end(Boot { attempts: 0 }, tries).1 <= MAX_RESPAWN + 1,
        course_end(Boot { attempts: 0 }, tries).0 is Navigate || course_end(
            Boot { attempts: 0 },
            tries,
        ).0 is Fail,
        course_end(Boot { attempts: 0 }, tries).0 matches BootStep::Fail {
            notice: Notice::ProcessDied { attempts, .. },
            ..
        } ==> attempts == MAX_RESPAWN,
{
    reveal_with_fuel(course_end, 3);
}

/// The window is led to the service if and only if a start brought it to answer: the first one, or,
/// after a process that ended too early, the second.
pub proof fn law_window_shows_only_a_ready_service(tries: spec_fn(int) -> Try)
    ensures
        course_end(Boot { attempts: 0 }, tries).0 is Navigate <==> is_ready(tries(0)) || is_dead(
            tries(0),
        ) && is_ready(tries(1)),
{
    reveal_with_fuel(course_end, 3);
}

/// A notice at the end of a course names what the last start came to: a port that was not freed, a
/// process that could not be started, one that ended too early, or a service that did not answer.
pub proof fn law_failure_names_its_cause(tries: spec_fn(int) -> Try)
    requires
        course_end(Boot { attempts: 0 }, tries).0 is Fail,
    ensures
        ({
            let (end, starts) = course_end(Boot { attempts: 0 }, tries);
            let last = tries(starts - 1);
            let notice = end->notice;
            &&& notice is PortBlocked <==> last.end == StartEnd::PortHeld
            &&& notice is SpawnFailed <==> last.end == StartEnd::SpawnFailed
            &&& notice is ProcessDied <==> is_dead(last)
            &&& notice is TimedOut <==> last.end == StartEnd::Started && last.outcome is Timeout
        }),
{
    reveal_with_fuel(course_end, 3);
}

/// The tooltip at the end of a course tells of an address if and only if the last start brought the
/// service to answer with an address captured.
pub proof fn law_tooltip_tells_the_outcome(tries: spec_fn(int) -> Try)
    ensures
        ({
            let (end, starts) = course_end(Boot { attempts: 0 }, tries);
            let last = tries(starts - 1);
            &&& token_told(end) is Some
            &&& token_told(end) == Some(true) <==> last.end == StartEnd::Started && last.outcome
                == (DshOutcome::Ready { has_token: true })
        }),
{
    reveal_with_fuel(course_end, 3);
}

// ---------------------------------------------------------------------------
// Laws by what each step brings
// ---------------------------------------------------------------------------

/// How a start goes on: the earlier process is ended, the address forgotten, the port looked at. A
/// taken port is cleared and awaited with thirty looks, and a start is given up while it is held; on
/// a free port the command that was found starts the service in the directory, whatever either is
/// called.
pub proof fn law_start_goes_on(event: StartEvent, step: StartStep)
    requires
        call_ensures(start_dsh_process, (event,), step),
    ensures
        event is Wanted <==> step is EndOwn,
        event is OwnEnded <==> step is ForgetToken,
        event is TokenForgotten <==> step is LookAtPort,
        event == (StartEvent::PortSeen { listening: true }) <==> step is EndOccupants,
        event is OccupantsTold <==> step is AwaitPort,
        step matches StartStep::AwaitPort { tries } ==> tries == 30,
        event == (StartEvent::PortSeen { listening: false }) || event == (StartEvent::PortAwaited {
            free: true,
        }) <==> step is FindPnpm,
        event is PnpmFound <==> step is Spawn,
        event matches StartEvent::PnpmFound { pnpm, dsh_dir } ==> {
            let command = step->command@;
            &&& command.program == pnpm@
            &&& command.args == seq!["dsh"@, "web"@, "--no-open"@]
            &&& command.dir == Some(dsh_dir@)
            &&& command.env == seq![("COREPACK_ENABLE_DOWNLOAD_PROMPT"@, "0"@)]
            &&& command.stdin == Stream::Null
            &&& command.stdout == Stream::Piped
            &&& command.stderr == Stream::Piped
            &&& command.own_group
        },
        event == (StartEvent::PortAwaited { free: false }) <==> step == (StartStep::Done {
            end: StartEnd::PortHeld,
        }),
        event == (StartEvent::Spawned { ok: true }) <==> step == (StartStep::Done {
            end: StartEnd::Started,
        }),
        event == (StartEvent::Spawned { ok: false }) <==> step == (StartStep::Done {
            end: StartEnd::SpawnFailed,
        }),
{
}

/// Only an answer shows that the service is up, but any answer does, whatever its status; and only a
/// process that is known to have ended counts as ended, with the description of its end as it is.
pub proof fn law_what_is_seen_counts(
    reply: ServiceReply,
    up: bool,
    child: ChildState,
    status: Option<String>,
)
    requires
        call_ensures(is_dsh_running, (reply,), up),
        call_ensures(process_exited, (child,), status),
    ensures
        reply is Answered ==> up,
        reply is TimedOut || reply is Failed ==> !up,
        child matches ChildState::Exited { status: how } ==> status == Some(how),
        child is Absent || child is Running || child is Unknown ==> status is None,
        SERVICE_PROBE_TIMEOUT_S == 3,
{
}

/// A wait begins with a pause of a second, and after every pause the service is looked at; once it has
/// answered, the wait for an address goes on until five pauses are over.
pub proof fn law_pauses_lead_to_looks(
    begun: (ReadyWait, ReadyStep),
    before: ReadyWait,
    after: ReadyWait,
    since_start_s: u64,
    step: ReadyStep,
)
    requires
        call_ensures(ReadyWait::new, (), begun),
        exists|w: &mut ReadyWait|
            *w == before && *final(w) == after && #[trigger] call_ensures(
                ReadyWait::slept,
                (w, since_start_s),
                step,
            ),
        before.elapsed < u64::MAX,
    ensures
        begun.0.elapsed == 0 && begun.0.grace is None,
        begun.1 == (ReadyStep::Sleep { millis: 1000 }),
        after.elapsed >= since_start_s,
        after.elapsed == since_start_s || since_start_s <= before.elapsed && after.elapsed
            == before.elapsed + 1,
        before.grace is None ==> after.grace is None && step is ProbeService,
        before.grace matches Some(grace) ==> {
            &&& grace < 5 ==> after.grace == Some((grace + 1) as u64)
            &&& grace < 4 ==> step is LookForToken
            &&& grace >= 4 ==> step is ReadToken
        },
{
}

/// An answer opens the wait for an address; without one the process is looked at. Either way the time
/// that the look took counts.
pub proof fn law_answer_opens_the_wait_for_an_address(
    before: ReadyWait,
    after: ReadyWait,
    answers: bool,
    since_start_s: u64,
    step: ReadyStep,
)
    requires
        exists|w: &mut ReadyWait|
            *w == before && *final(w) == after && #[trigger] call_ensures(
                ReadyWait::service_probed,
                (w, answers, since_start_s),
                step,
            ),
    ensures
        after.elapsed >= since_start_s,
        after.elapsed == since_start_s || after.elapsed == before.elapsed,
        after.elapsed >= before.elapsed,
        answers ==> after.grace == Some(0u64) && step is LookForToken,
        !answers ==> after.grace == before.grace && step is CheckExit,
{
}

/// A process that ended ends the wait, with the description of its end as it is. One that runs lets it
/// go on: for another second while less than 180 are gone, and for another pause while an address is
/// awaited. Without an answer in 180 seconds the wait is given up.
pub proof fn law_look_at_the_process_decides(
    wait: &ReadyWait,
    status: Option<String>,
    step: ReadyStep,
)
    requires
        call_ensures(ReadyWait::exit_checked, (wait, status), step),
    ensures
        status matches Some(how) ==> step == (ReadyStep::Done {
            outcome: DshOutcome::ProcessDied { status: how },
        }),
        status is None && (wait.grace is Some || wait.elapsed < 180) ==> step == (ReadyStep::Sleep {
            millis: 1000,
        }),
        status is None && wait.grace is None && wait.elapsed >= 180 ==> step == (ReadyStep::Done {
            outcome: DshOutcome::Timeout,
        }),
{
}

/// An address that is found ends the wait for one, and the service is ready with or without it, as it
/// was read.
pub proof fn law_address_ends_the_wait(
    wait: &ReadyWait,
    found: bool,
    looked: ReadyStep,
    has_token: bool,
    read: ReadyStep,
    reports: bool,
)
    requires
        call_ensures(ReadyWait::token_looked_for, (wait, found), looked),
        call_ensures(ReadyWait::token_read, (wait, has_token), read),
        call_ensures(ReadyWait::reports_progress, (wait,), reports),
    ensures
        found ==> looked is ReadToken,
        !found ==> looked is CheckExit,
        read == (ReadyStep::Done { outcome: DshOutcome::Ready { has_token } }),
        reports <==> wait.elapsed % 5 == 0,
{
}

/// A course begins with a look at the service unless a restart is forced. A service that answers is
/// shown and left to its owner; else the process is started. Each way a start can fail is told as
/// what it is.
pub proof fn law_course_begins(
    force_restart: bool,
    begun: (Boot, BootStep),
    restarted: (Boot, BootStep),
    boot: &Boot,
    running: bool,
    probed: BootStep,
    end: StartEnd,
    ended: BootStep,
)
    requires
        call_ensures(Boot::check_and_start_dsh, (force_restart,), begun),
        call_ensures(Boot::restart_dsh_service, (), restarted),
        call_ensures(Boot::service_probed, (boot, running), probed),
        call_ensures(Boot::start_ended, (boot, end), ended),
    ensures
        begun.0.attempts == 0 && restarted.0.attempts == 0,
        force_restart ==> begun.1 == (BootStep::Start { flush: false }),
        !force_restart ==> begun.1 is ProbeService,
        restarted.1 == (BootStep::Start { flush: false }),
        running ==> probed is YieldToExternal,
        !running ==> probed == (BootStep::Start { flush: false }),
        end == StartEnd::Started <==> ended is AwaitReady,
        end == StartEnd::PortHeld ==> ended == (BootStep::Fail {
            notice: Notice::PortBlocked,
            flush: false,
        }),
        end == StartEnd::SpawnFailed ==> ended == (BootStep::Fail {
            notice: Notice::SpawnFailed,
            flush: false,
        }),
{
}

/// How a wait ends the course: a service that is ready is shown, with the output written out if no
/// address was captured; a process that ended is started once more, and told the second time with the
/// description of its end as it is; a service that did not answer is told.
pub proof fn law_wait_ends_the_course(
    before: Boot,
    after: Boot,
    outcome: DshOutcome,
    step: BootStep,
)
    requires
        exists|b: &mut Boot|
            *b == before && *final(b) == after && #[trigger] call_ensures(
                Boot::wait_ended,
                (b, outcome),
                step,
            ),
    ensures
        outcome matches DshOutcome::Ready { has_token } ==> after == before && step
            == (BootStep::Navigate { has_token, flush: !has_token }),
        outcome matches DshOutcome::ProcessDied { status } ==> {
            &&& before.attempts == 0 ==> after.attempts == 1 && step == (BootStep::Start {
                flush: true,
            })
            &&& before.attempts >= 1 ==> after == before && step == (BootStep::Fail {
                notice: Notice::ProcessDied { status, attempts: before.attempts },
                flush: true,
            })
        },
        outcome is Timeout ==> after == before && step == (BootStep::Fail {
            notice: Notice::TimedOut,
            flush: true,
        }),
{
}

/// What the tooltip tells once a step is taken.
pub proof fn law_tooltip_follows_the_step(step: &BootStep, has: Option<bool>)
    requires
        call_ensures(shown_token, (step,), has),
    ensures
        *step matches BootStep::Navigate { has_token, flush } ==> has == Some(has_token),
        *step is YieldToExternal || *step is Fail ==> has == Some(false),
        *step is ProbeService || *step is Start || *step is AwaitReady ==> has is None,
        token_told(*step) == has,
{
}

} // verus!
