//! Whether a running service asks for a token, and what becomes of an instance that the shell did
//! not start.

use vstd::prelude::*;

use crate::page::Notice;
use crate::text::begins_with;
use crate::text::contains_text;
use crate::text::holds;
use crate::text::law_part_can_be_cut_out;
use crate::text::law_part_stands_where_it_is_put;
use crate::text::stands_at;

verus! {

// ---------------------------------------------------------------------------
// The probe
// ---------------------------------------------------------------------------

/// How long, in seconds, a request without credentials may take.
pub const AUTH_PROBE_TIMEOUT_S: u64 = 5;

/// How many redirects a request without credentials follows.
pub const AUTH_PROBE_REDIRECTS: usize = 5;

/// What a request without credentials has shown.
#[derive(Clone, Copy, Debug, PartialEq, Eq, Structural)]
pub enum AuthProbe {
    /// The service asks for a token.
    Required,
    /// The service answered and asks for none.
    NotRequired,
    /// There was no usable answer.
    Inconclusive,
}

/// What came back on the request.
#[derive(Debug)]
pub enum AuthReply {
    /// Nothing: no connection, no answer in time, or no request could be made.
    Nothing,
    /// The head of an answer: its status, and its content type if that is readable.
    Head { status: u16, content_type: Option<String> },
}

/// What the head of an answer decides.
#[derive(Clone, Copy, Debug, PartialEq, Eq, Structural)]
pub enum AuthVerdict {
    /// It decides the question.
    Settled(AuthProbe),
    /// The body has to be read.
    ReadBody,
}

/// The answer is plain text.
pub open spec fn is_plain(content_type: Option<Seq<char>>) -> bool {
    content_type matches Some(text) && stands_at(text, "text/plain"@, 0)
}

/// What an answer decides before its body is read.
pub open spec fn head_verdict(reply: AuthReply) -> AuthVerdict {
    match reply {
        AuthReply::Nothing => AuthVerdict::Settled(AuthProbe::Inconclusive),
        AuthReply::Head { status, content_type } => if status == 401 {
            AuthVerdict::Settled(AuthProbe::Required)
        } else if is_plain(content_type.deep_view()) {
            AuthVerdict::ReadBody
        } else {
            AuthVerdict::Settled(AuthProbe::NotRequired)
        },
    }
}

/// What a body decides; `None` stands for one that could not be read.
pub open spec fn body_verdict(body: Option<Seq<char>>) -> AuthProbe {
    match body {
        Some(text) => if holds(text, "authentication required"@) {
            AuthProbe::Required
        } else {
            AuthProbe::NotRequired
        },
        None => AuthProbe::Inconclusive,
    }
}

/// Judges an answer by its status and content type.
pub fn probe_auth_requirement(reply: &AuthReply) -> (verdict: AuthVerdict)
    ensures
        verdict == head_verdict(*reply),
{
    match reply {
        AuthReply::Nothing => AuthVerdict::Settled(AuthProbe::Inconclusive),
        AuthReply::Head { status, content_type } => {
            if *status == 401 {
                return AuthVerdict::Settled(AuthProbe::Required);
            }
            let plain = match content_type {
                Some(text) => begins_with(text.as_str(), "text/plain"),
                None => false,
            };
            if plain {
                AuthVerdict::ReadBody
            } else {
                AuthVerdict::Settled(AuthProbe::NotRequired)
            }
        },
    }
}

/// Judges an answer by its body.
pub fn judge_body(body: &Option<String>) -> (probe: AuthProbe)
    ensures
        probe == body_verdict(body.deep_view()),
{
    match body {
        Some(text) => {
            if contains_text(text.as_str(), "authentication required") {
                AuthProbe::Required
            } else {
                AuthProbe::NotRequired
            }
        },
        None => AuthProbe::Inconclusive,
    }
}

/// The headers of the request. They make it look like a browser that opens a page: the service asks
/// only those for a token.
pub fn probe_headers() -> (headers: Vec<(&'static str, &'static str)>)
    ensures
        headers.deep_view() == seq![
            (
                "Accept"@,
                "text/html,application/xhtml+xml,application/xml;q=0.9,image/avif,image/webp,*/*;q=0.8"@,
            ),
            ("Sec-Fetch-Dest"@, "document"@),
            ("Sec-Fetch-Mode"@, "navigate"@),
            ("Sec-Fetch-Site"@, "none"@),
            ("Sec-Fetch-User"@, "?1"@),
            ("Upgrade-Insecure-Requests"@, "1"@),
        ],
{
    let mut headers: Vec<(&'static str, &'static str)> = Vec::new();
    headers.push(
        (
            "Accept",
            "text/html,application/xhtml+xml,application/xml;q=0.9,image/avif,image/webp,*/*;q=0.8",
        ),
    );
    headers.push(("Sec-Fetch-Dest", "document"));
    headers.push(("Sec-Fetch-Mode", "navigate"));
    headers.push(("Sec-Fetch-Site", "none"));
    headers.push(("Sec-Fetch-User", "?1"));
    headers.push(("Upgrade-Insecure-Requests", "1"));
    proof {
        assert(headers.deep_view() =~= seq![
            (
                "Accept"@,
                "text/html,application/xhtml+xml,application/xml;q=0.9,image/avif,image/webp,*/*;q=0.8"@,
            ),
            ("Sec-Fetch-Dest"@, "document"@),
            ("Sec-Fetch-Mode"@, "navigate"@),
            ("Sec-Fetch-Site"@, "none"@),
            ("Sec-Fetch-User"@, "?1"@),
            ("Upgrade-Insecure-Requests"@, "1"@),
        ]);
    }
    headers
}

/// The outcome of a whole probe: the head, and the body where the head does not decide.
pub open spec fn probe_outcome(reply: AuthReply, body: Option<Seq<char>>) -> AuthProbe {
    match head_verdict(reply) {
        AuthVerdict::Settled(probe) => probe,
        AuthVerdict::ReadBody => body_verdict(body),
    }
}

/// A service that does not answer is never taken for one that asks for no token, and one that
/// refuses is always recognised.
pub proof fn law_silence_is_not_consent(reply: AuthReply, body: Option<Seq<char>>)
    ensures
        reply is Nothing ==> probe_outcome(reply, body) == AuthProbe::Inconclusive,
        reply is Head && reply->status == 401 ==> probe_outcome(reply, body) == AuthProbe::Required,
        probe_outcome(reply, body) == AuthProbe::NotRequired ==> reply is Head && reply->status
            != 401,
{
}

// ---------------------------------------------------------------------------
// Instances that the shell did not start
// ---------------------------------------------------------------------------

/// How many silent probes show an instance to be abandoned.
pub const SILENT_LIMIT: u8 = 2;

/// How many times an instance is looked at.
pub const TAKEOVER_ROUNDS: u8 = 3;

/// How long, in seconds, the shell waits before a look at the instance.
pub open spec fn pause_before(round: u8) -> u64 {
    if round == 0 {
        0
    } else if round == 1 {
        6
    } else {
        8
    }
}

/// How the check of an instance ends.
#[derive(Clone, Copy, Debug, PartialEq, Eq, Structural)]
pub enum TakeoverEnd {
    /// A takeover was already under way.
    AlreadyTriggered,
    /// The instance is gone: the shell starts the service itself.
    StartOwn,
    /// The instance asks for a token that only its own process knows: it is replaced.
    ReplaceForLogin,
    /// The instance holds the port and does not answer: it is replaced.
    ReplaceSilent,
    /// The instance asks for no token: it is left alone.
    KeepExternal,
    /// All looks are spent.
    Spent,
}

/// The next step of the check.
#[derive(Clone, Copy, Debug, PartialEq, Eq, Structural)]
pub enum TakeoverStep {
    /// Wait for this many seconds.
    Sleep { secs: u64 },
    /// Look whether a takeover was triggered before.
    AskTriggered,
    /// Look whether the port is taken.
    LookAtPort,
    /// Send the request without credentials.
    ProbeAuth,
    /// The check is over.
    End(TakeoverEnd),
}

/// The check of an instance: the number of the present look, and how many probes were silent.
#[derive(Clone, Copy, Debug, PartialEq, Eq, Structural)]
pub struct Takeover {
    pub round: u8,
    pub silent: u8,
}

/// The step after the look for an earlier takeover.
pub open spec fn after_asking(triggered: bool) -> TakeoverStep {
    if triggered {
        TakeoverStep::End(TakeoverEnd::AlreadyTriggered)
    } else {
        TakeoverStep::LookAtPort
    }
}

/// The step after the look at the port.
pub open spec fn after_port_look(listening: bool) -> TakeoverStep {
    if listening {
        TakeoverStep::ProbeAuth
    } else {
        TakeoverStep::End(TakeoverEnd::StartOwn)
    }
}

impl Takeover {
    /// The check as it begins.
    pub open spec fn begun() -> Takeover {
        Takeover { round: 0, silent: 0 }
    }

    /// The step that begins a look, or the end if all are spent.
    pub open spec fn due(self) -> TakeoverStep {
        if self.round < TAKEOVER_ROUNDS {
            TakeoverStep::Sleep { secs: pause_before(self.round) }
        } else {
            TakeoverStep::End(TakeoverEnd::Spent)
        }
    }

    /// The check after a silent probe.
    pub open spec fn after_silence(self) -> Takeover {
        Takeover {
            round: if self.round < TAKEOVER_ROUNDS {
                (self.round + 1) as u8
            } else {
                self.round
            },
            silent: if self.silent < SILENT_LIMIT {
                (self.silent + 1) as u8
            } else {
                self.silent
            },
        }
    }

    /// The check and its next step after a probe.
    pub open spec fn after_probe(self, probe: AuthProbe) -> (Takeover, TakeoverStep) {
        match probe {
            AuthProbe::Required => (self, TakeoverStep::End(TakeoverEnd::ReplaceForLogin)),
            AuthProbe::NotRequired => (self, TakeoverStep::End(TakeoverEnd::KeepExternal)),
            AuthProbe::Inconclusive => {
                let next = self.after_silence();
                if next.silent >= SILENT_LIMIT {
                    (next, TakeoverStep::End(TakeoverEnd::ReplaceSilent))
                } else {
                    (next, next.due())
                }
            },
        }
    }

    /// Begins the check of an instance.
    pub fn new() -> (begun: (Takeover, TakeoverStep))
        ensures
            begun.0 == Takeover::begun(),
            begun.1 == begun.0.due(),
    {
        let check = Takeover { round: 0, silent: 0 };
        let step = check.due_step();
        (check, step)
    }

    fn due_step(&self) -> (step: TakeoverStep)
        ensures
            step == self.due(),
    {
        if self.round < TAKEOVER_ROUNDS {
            let secs: u64 = if self.round == 0 {
                0
            } else if self.round == 1 {
                6
            } else {
                8
            };
            TakeoverStep::Sleep { secs }
        } else {
            TakeoverStep::End(TakeoverEnd::Spent)
        }
    }

    /// Goes on after the pause before a look.
    pub fn slept(&self) -> (step: TakeoverStep)
        ensures
            step == TakeoverStep::AskTriggered,
    {
        TakeoverStep::AskTriggered
    }

    /// Goes on after the look for an earlier takeover: there is at most one in a run of the shell.
    pub fn asked_triggered(&self, triggered: bool) -> (step: TakeoverStep)
        ensures
            step == after_asking(triggered),
    {
        if triggered {
            TakeoverStep::End(TakeoverEnd::AlreadyTriggered)
        } else {
            TakeoverStep::LookAtPort
        }
    }

    /// Goes on after the look at the port.
    pub fn looked_at_port(&self, listening: bool) -> (step: TakeoverStep)
        ensures
            step == after_port_look(listening),
    {
        if listening {
            TakeoverStep::ProbeAuth
        } else {
            TakeoverStep::End(TakeoverEnd::StartOwn)
        }
    }

    /// Goes on after the request without credentials.
    pub fn probed(&mut self, probe: AuthProbe) -> (step: TakeoverStep)
        ensures
            (*final(self), step) == old(self).after_probe(probe),
    {
        match probe {
            AuthProbe::Required => TakeoverStep::End(TakeoverEnd::ReplaceForLogin),
            AuthProbe::NotRequired => TakeoverStep::End(TakeoverEnd::KeepExternal),
            AuthProbe::Inconclusive => {
                if self.round < TAKEOVER_ROUNDS {
                    self.round = self.round + 1;
                }
                if self.silent < SILENT_LIMIT {
                    self.silent = self.silent + 1;
                }
                if self.silent >= SILENT_LIMIT {
                    TakeoverStep::End(TakeoverEnd::ReplaceSilent)
                } else {
                    self.due_step()
                }
            },
        }
    }
}

/// The end of a check is a takeover.
pub open spec fn is_takeover(end: TakeoverEnd) -> bool {
    end == TakeoverEnd::ReplaceForLogin || end == TakeoverEnd::ReplaceSilent
}

/// Whether the end of a check is a takeover: then the instance is ended, and no other takeover
/// follows in this run.
pub fn takes_over(end: TakeoverEnd) -> (yes: bool)
    ensures
        yes == is_takeover(end),
{
    match end {
        TakeoverEnd::ReplaceForLogin => true,
        TakeoverEnd::ReplaceSilent => true,
        _ => false,
    }
}

/// What the user is told at the end of a check.
pub fn takeover_notice(end: TakeoverEnd) -> (notice: Option<Notice>)
    ensures
        notice == (match end {
            TakeoverEnd::ReplaceForLogin => Some(Notice::TakeoverForLogin),
            TakeoverEnd::ReplaceSilent => Some(Notice::TakeoverOfSilent),
            _ => None,
        }),
{
    match end {
        TakeoverEnd::ReplaceForLogin => Some(Notice::TakeoverForLogin),
        TakeoverEnd::ReplaceSilent => Some(Notice::TakeoverOfSilent),
        _ => None,
    }
}

/// What a look at an instance shows.
pub struct Look {
    pub triggered: bool,
    pub listening: bool,
    pub probe: AuthProbe,
}

/// How a check that has come to `check` ends, if look number `i` shows `looks(i)`.
pub open spec fn check_end(check: Takeover, looks: spec_fn(int) -> Look) -> TakeoverEnd
    decreases TAKEOVER_ROUNDS - check.round,
{
    match check.due() {
        TakeoverStep::End(end) => end,
        _ => {
            let look = looks(check.round as int);
            match (after_asking(look.triggered), after_port_look(look.listening)) {
                (TakeoverStep::End(end), _) => end,
                (_, TakeoverStep::End(end)) => end,
                _ => match check.after_probe(look.probe) {
                    (_, TakeoverStep::End(end)) => end,
                    (next, _) => check_end(next, looks),
                },
            }
        },
    }
}

/// What a single look decides, if it decides anything: an earlier takeover, an instance that is
/// gone, or an answer.
pub open spec fn look_decides(look: Look) -> Option<TakeoverEnd> {
    if look.triggered {
        Some(TakeoverEnd::AlreadyTriggered)
    } else if !look.listening {
        Some(TakeoverEnd::StartOwn)
    } else {
        match look.probe {
            AuthProbe::Required => Some(TakeoverEnd::ReplaceForLogin),
            AuthProbe::NotRequired => Some(TakeoverEnd::KeepExternal),
            AuthProbe::Inconclusive => None,
        }
    }
}

/// The first look that decides anything ends the check; if the first two decide nothing, the
/// instance is replaced as a silent one. So a check never runs out of looks.
pub proof fn law_check_ends_by_second_look(looks: spec_fn(int) -> Look)
    ensures
        check_end(Takeover::begun(), looks) == (match look_decides(looks(0)) {
            Some(end) => end,
            None => match look_decides(looks(1)) {
                Some(end) => end,
                None => TakeoverEnd::ReplaceSilent,
            },
        }),
        check_end(Takeover::begun(), looks) != TakeoverEnd::Spent,
{
    reveal_with_fuel(check_end, 3);
}

/// A takeover that is already under way is not repeated: whichever look notices it ends the check.
pub proof fn law_takeover_is_not_repeated(looks: spec_fn(int) -> Look)
    requires
        looks(0).triggered || look_decides(looks(0)) is None && looks(1).triggered,
    ensures
        check_end(Takeover::begun(), looks) == TakeoverEnd::AlreadyTriggered,
{
    law_check_ends_by_second_look(looks);
}

/// What the looks show in a run of the shell in which a takeover has been triggered before, or has
/// not.
pub open spec fn seen_by(looks: spec_fn(int) -> Look, triggered: bool) -> spec_fn(int) -> Look {
    |i: int| Look { triggered, listening: looks(i).listening, probe: looks(i).probe }
}

/// How the checks of one run end, one after the other, if `triggered` tells whether a takeover has
/// been triggered before.
pub open spec fn ends_of_run(triggered: bool, checks: Seq<spec_fn(int) -> Look>) -> Seq<TakeoverEnd>
    decreases checks.len(),
{
    if checks.len() == 0 {
        Seq::empty()
    } else {
        let end = check_end(Takeover::begun(), seen_by(checks[0], triggered));
        seq![end] + ends_of_run(triggered || is_takeover(end), checks.drop_first())
    }
}

proof fn lemma_run_length(triggered: bool, checks: Seq<spec_fn(int) -> Look>)
    ensures
        ends_of_run(triggered, checks).len() == checks.len(),
    decreases checks.len(),
{
    if checks.len() > 0 {
        let end = check_end(Takeover::begun(), seen_by(checks[0], triggered));
        lemma_run_length(triggered || is_takeover(end), checks.drop_first());
    }
}

/// Once a takeover has been triggered, every later check of the run ends at its first question: it
/// asks nothing of the instance, and neither replaces it nor starts a service.
pub proof fn law_triggered_run_stays_quiet(checks: Seq<spec_fn(int) -> Look>)
    ensures
        ends_of_run(true, checks).len() == checks.len(),
        forall|i: int|
            0 <= i < checks.len() ==> #[trigger] ends_of_run(true, checks)[i]
                == TakeoverEnd::AlreadyTriggered,
        after_asking(true) == TakeoverStep::End(TakeoverEnd::AlreadyTriggered),
    decreases checks.len(),
{
    if checks.len() > 0 {
        let rest = checks.drop_first();
        law_takeover_is_not_repeated(seen_by(checks[0], true));
        law_triggered_run_stays_quiet(rest);
        assert forall|i: int| 0 <= i < checks.len() implies #[trigger] ends_of_run(true, checks)[i]
            == TakeoverEnd::AlreadyTriggered by {
            if i > 0 {
                assert(ends_of_run(true, checks)[i] == ends_of_run(true, rest)[i - 1]);
            }
        }
    }
}

/// However many checks a run makes, at most one of them takes an instance over, and all that follow
/// it end because of it.
pub proof fn law_at_most_one_takeover(checks: Seq<spec_fn(int) -> Look>, i: int, j: int)
    requires
        0 <= i < j < checks.len(),
        is_takeover(ends_of_run(false, checks)[i]),
    ensures
        ends_of_run(false, checks)[j] == TakeoverEnd::AlreadyTriggered,
    decreases checks.len(),
{
    let rest = checks.drop_first();
    let first = check_end(Takeover::begun(), seen_by(checks[0], false));
    lemma_run_length(is_takeover(first), rest);
    assert(ends_of_run(false, checks)[0] == first);
    assert(ends_of_run(false, checks)[j] == ends_of_run(is_takeover(first), rest)[j - 1]);
    law_triggered_run_stays_quiet(rest);
    if i > 0 {
        assert(ends_of_run(false, checks)[i] == ends_of_run(is_takeover(first), rest)[i - 1]);
        if is_takeover(first) {
            assert(ends_of_run(true, rest)[i - 1] == TakeoverEnd::AlreadyTriggered);
        } else {
            law_at_most_one_takeover(rest, i - 1, j - 1);
        }
    } else {
        assert(ends_of_run(true, rest)[j - 1] == TakeoverEnd::AlreadyTriggered);
    }
}

// ---------------------------------------------------------------------------
// Laws by what is sent and what is answered
// ---------------------------------------------------------------------------

/// `text` begins with the name of plain text.
pub open spec fn names_plain_text(text: Seq<char>) -> bool {
    exists|rest: Seq<char>| text == #[trigger] ("text/plain"@ + rest)
}

/// The words that ask for a token stand somewhere in `text`.
pub open spec fn asks_for_token(text: Seq<char>) -> bool {
    exists|pre: Seq<char>, post: Seq<char>|
        text == #[trigger] (pre + "authentication required"@ + post)
}

proof fn lemma_plain(text: Seq<char>)
    ensures
        stands_at(text, "text/plain"@, 0) <==> names_plain_text(text),
{
    let part = "text/plain"@;
    let none = Seq::<char>::empty();
    if stands_at(text, part, 0) {
        law_part_can_be_cut_out(text, part, 0);
        assert(text =~= part + text.skip(part.len() as int));
    }
    if names_plain_text(text) {
        let rest = choose|rest: Seq<char>| text == #[trigger] (part + rest);
        law_part_stands_where_it_is_put(none, part, rest);
        assert(none + part + rest =~= text);
    }
}

proof fn lemma_asks(text: Seq<char>)
    ensures
        holds(text, "authentication required"@) <==> asks_for_token(text),
{
    let part = "authentication required"@;
    if holds(text, part) {
        let i = choose|i: int| stands_at(text, part, i);
        law_part_can_be_cut_out(text, part, i);
    }
    if asks_for_token(text) {
        let (pre, post) = choose|pre: Seq<char>, post: Seq<char>|
            text == #[trigger] (pre + part + post);
        law_part_stands_where_it_is_put(pre, part, post);
    }
}

/// The head of an answer settles that a token is asked for exactly by the status 401; it leaves the
/// question to the body exactly if the status is another one and the content is plain text; and
/// every other answer settles that none is asked for. Without an answer nothing is shown.
pub proof fn law_head_settles(reply: &AuthReply, verdict: AuthVerdict)
    requires
        call_ensures(probe_auth_requirement, (reply,), verdict),
    ensures
        *reply is Nothing <==> verdict == AuthVerdict::Settled(AuthProbe::Inconclusive),
        *reply matches AuthReply::Head { status, content_type } ==> {
            let plain = content_type matches Some(text) && names_plain_text(text@);
            &&& verdict == AuthVerdict::Settled(AuthProbe::Required) <==> status == 401
            &&& verdict == AuthVerdict::ReadBody <==> status != 401 && plain
            &&& verdict == AuthVerdict::Settled(AuthProbe::NotRequired) <==> status != 401 && !plain
        },
{
    match *reply {
        AuthReply::Head { status, content_type } => {
            if content_type is Some {
                lemma_plain(content_type->0@);
            }
        },
        AuthReply::Nothing => {},
    }
}

/// A body asks for a token exactly if the words for it stand somewhere in it; one that could not be
/// read shows nothing.
pub proof fn law_body_settles(body: &Option<String>, probe: AuthProbe)
    requires
        call_ensures(judge_body, (body,), probe),
    ensures
        probe == AuthProbe::Inconclusive <==> *body is None,
        probe == AuthProbe::Required <==> (*body matches Some(text) && asks_for_token(text@)),
        probe == AuthProbe::NotRequired <==> (*body matches Some(text) && !asks_for_token(text@)),
{
    if *body is Some {
        lemma_asks(body->0@);
    }
}

/// A whole probe asks for a token only if the status is 401, or if the content is plain text and its
/// body was read and says so; an answer that is neither asks for none.
pub proof fn law_token_is_asked_for(
    reply: &AuthReply,
    verdict: AuthVerdict,
    body: &Option<String>,
    judged: AuthProbe,
    probe: AuthProbe,
)
    requires
        call_ensures(probe_auth_requirement, (reply,), verdict),
        call_ensures(judge_body, (body,), judged),
        probe == (match verdict {
            AuthVerdict::Settled(probe) => probe,
            AuthVerdict::ReadBody => judged,
        }),
    ensures
        probe == AuthProbe::Required <==> (*reply matches AuthReply::Head { status, content_type }
            && (status == 401 || (content_type matches Some(text) && names_plain_text(text@)) && (
        *body matches Some(said) && asks_for_token(said@)))),
        *reply matches AuthReply::Head { status, content_type } ==> (status != 401 && !(
        content_type matches Some(text) && names_plain_text(text@)) ==> probe
            == AuthProbe::NotRequired),
{
    law_head_settles(reply, verdict);
    law_body_settles(body, judged);
}

/// The request for an answer without credentials looks like a browser that opens a page.
pub proof fn law_request_asks_for_a_page(headers: Vec<(&'static str, &'static str)>)
    requires
        call_ensures(probe_headers, (), headers),
    ensures
        headers@.len() == 6,
        headers@[0].0@ == "Accept"@,
        headers@[0].1@
            == "text/html,application/xhtml+xml,application/xml;q=0.9,image/avif,image/webp,*/*;q=0.8"@,
        headers@[1].0@ == "Sec-Fetch-Dest"@ && headers@[1].1@ == "document"@,
        headers@[2].0@ == "Sec-Fetch-Mode"@ && headers@[2].1@ == "navigate"@,
        headers@[3].0@ == "Sec-Fetch-Site"@ && headers@[3].1@ == "none"@,
        headers@[4].0@ == "Sec-Fetch-User"@ && headers@[4].1@ == "?1"@,
        headers@[5].0@ == "Upgrade-Insecure-Requests"@ && headers@[5].1@ == "1"@,
        AUTH_PROBE_TIMEOUT_S == 5,
        AUTH_PROBE_REDIRECTS == 5,
{
    let all = headers.deep_view();
    assert(all.len() == headers@.len());
    assert(all[0] == (headers@[0].0@, headers@[0].1@));
    assert(all[1] == (headers@[1].0@, headers@[1].1@));
    assert(all[2] == (headers@[2].0@, headers@[2].1@));
    assert(all[3] == (headers@[3].0@, headers@[3].1@));
    assert(all[4] == (headers@[4].0@, headers@[4].1@));
    assert(all[5] == (headers@[5].0@, headers@[5].1@));
}

/// A check begins with a look at once. Each look first asks for an earlier takeover, then looks at
/// the port, then probes; an earlier takeover, a free port and an answer each end the check.
pub proof fn law_look_goes_step_by_step(
    begun: (Takeover, TakeoverStep),
    check: &Takeover,
    slept: TakeoverStep,
    triggered: bool,
    asked: TakeoverStep,
    listening: bool,
    looked: TakeoverStep,
)
    requires
        call_ensures(Takeover::new, (), begun),
        call_ensures(Takeover::slept, (check,), slept),
        call_ensures(Takeover::asked_triggered, (check, triggered), asked),
        call_ensures(Takeover::looked_at_port, (check, listening), looked),
    ensures
        begun.0 == (Takeover { round: 0, silent: 0 }),
        begun.1 == (TakeoverStep::Sleep { secs: 0 }),
        slept == TakeoverStep::AskTriggered,
        triggered ==> asked == TakeoverStep::End(TakeoverEnd::AlreadyTriggered),
        !triggered ==> asked == TakeoverStep::LookAtPort,
        listening ==> looked == TakeoverStep::ProbeAuth,
        !listening ==> looked == TakeoverStep::End(TakeoverEnd::StartOwn),
{
}

/// What a probe leads to: an instance that asks for a token is replaced, one that asks for none is
/// kept, and one that is silent is looked at again after six seconds, or after eight more, and is
/// replaced at the second silence.
pub proof fn law_probe_decides(
    before: Takeover,
    after: Takeover,
    probe: AuthProbe,
    step: TakeoverStep,
)
    requires
        exists|c: &mut Takeover|
            *c == before && *final(c) == after && #[trigger] call_ensures(
                Takeover::probed,
                (c, probe),
                step,
            ),
    ensures
        probe == AuthProbe::Required ==> step == TakeoverStep::End(TakeoverEnd::ReplaceForLogin)
            && after == before,
        probe == AuthProbe::NotRequired ==> step == TakeoverStep::End(TakeoverEnd::KeepExternal)
            && after == before,
        probe == AuthProbe::Inconclusive ==> {
            &&& before.silent < 2 ==> after.silent == before.silent + 1
            &&& before.round < 3 ==> after.round == before.round + 1
            &&& before.silent >= 1 ==> step == TakeoverStep::End(TakeoverEnd::ReplaceSilent)
            &&& before.silent == 0 && before.round == 0 ==> step == (TakeoverStep::Sleep { secs: 6 })
            &&& before.silent == 0 && before.round == 1 ==> step == (TakeoverStep::Sleep { secs: 8 })
            &&& before.silent == 0 && before.round >= 2 ==> step == TakeoverStep::End(
                TakeoverEnd::Spent,
            )
        },
{
}

/// Only an instance that asks for a token, or is silent, is taken over, and the user is told which
/// of the two it was.
pub proof fn law_takeover_is_told(end: TakeoverEnd, yes: bool, notice: Option<Notice>)
    requires
        call_ensures(takes_over, (end,), yes),
        call_ensures(takeover_notice, (end,), notice),
    ensures
        yes <==> end == TakeoverEnd::ReplaceForLogin || end == TakeoverEnd::ReplaceSilent,
        is_takeover(end) == yes,
        end == TakeoverEnd::ReplaceForLogin <==> notice == Some(Notice::TakeoverForLogin),
        end == TakeoverEnd::ReplaceSilent <==> notice == Some(Notice::TakeoverOfSilent),
        !yes <==> notice is None,
{
}

/// How a check ends, by what its looks show: an earlier takeover ends it; else an instance that is
/// gone is replaced by the shell's own service; else its answer decides; and if two looks bring no
/// answer it is replaced.
pub proof fn law_looks_decide(looks: spec_fn(int) -> Look)
    ensures
        ({
            let end = check_end(Takeover::begun(), looks);
            let first = looks(0);
            let again = !first.triggered && first.listening && first.probe
                == AuthProbe::Inconclusive;
            let last = if again {
                looks(1)
            } else {
                first
            };
            &&& end == TakeoverEnd::AlreadyTriggered <==> last.triggered
            &&& end == TakeoverEnd::StartOwn <==> !last.triggered && !last.listening
            &&& end == TakeoverEnd::ReplaceForLogin <==> !last.triggered && last.listening
                && last.probe == AuthProbe::Required
            &&& end == TakeoverEnd::KeepExternal <==> !last.triggered && last.listening
                && last.probe == AuthProbe::NotRequired
            &&& end == TakeoverEnd::ReplaceSilent <==> !last.triggered && last.listening
                && last.probe == AuthProbe::Inconclusive
        }),
{
    reveal_with_fuel(check_end, 3);
}

} // verus!
