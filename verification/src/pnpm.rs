//! Which pnpm command runs DSH.

use vstd::prelude::*;

use crate::platform::Platform;
use crate::text::contains_char;
use crate::text::is_space;
use crate::text::law_trimming_leaves_the_core;
use crate::text::trim;
use crate::text::trimmed;

verus! {

/// The plain name of the command.
pub open spec fn plain_name(platform: Platform) -> Seq<char> {
    match platform {
        Platform::Windows => "pnpm.cmd"@,
        Platform::Other => "pnpm"@,
    }
}

/// The plain name of the command.
pub fn default_pnpm_name(platform: Platform) -> (name: &'static str)
    ensures
        name@ == plain_name(platform),
{
    match platform {
        Platform::Windows => "pnpm.cmd",
        Platform::Other => "pnpm",
    }
}

/// The commands that are tried, in order: on Windows those of the known install directories come
/// before the plain name, since the search path may lead to a broken stand-in.
pub open spec fn candidates(
    platform: Platform,
    appdata: Option<Seq<char>>,
    program_files: Option<Seq<char>>,
) -> Seq<Seq<char>> {
    match platform {
        Platform::Windows => {
            let global = match appdata {
                Some(dir) => seq![dir + "\\npm\\pnpm.cmd"@],
                None => Seq::empty(),
            };
            let bundled = match program_files {
                Some(dir) => seq![dir + "\\nodejs\\pnpm.CMD"@],
                None => Seq::empty(),
            };
            (global + bundled).push(plain_name(platform))
        },
        Platform::Other => seq![plain_name(platform)],
    }
}

/// The commands that are tried, in order.
pub fn pnpm_candidates(
    platform: Platform,
    appdata: Option<String>,
    program_files: Option<String>,
) -> (list: Vec<String>)
    ensures
        list.deep_view() == candidates(platform, appdata.deep_view(), program_files.deep_view()),
{
    let mut list: Vec<String> = Vec::new();
    match platform {
        Platform::Windows => {
            match appdata {
                Some(dir) => list.push(dir.concat("\\npm\\pnpm.cmd")),
                None => {},
            }
            match program_files {
                Some(dir) => list.push(dir.concat("\\nodejs\\pnpm.CMD")),
                None => {},
            }
        },
        Platform::Other => {},
    }
    list.push(default_pnpm_name(platform).to_string());
    proof {
        assert(list.deep_view() =~= candidates(
            platform,
            appdata.deep_view(),
            program_files.deep_view(),
        ));
    }
    list
}

/// Where a command comes from.
#[derive(Clone, Copy, Debug, PartialEq, Eq, Structural)]
pub enum Origin {
    /// It was found before in this run.
    Memory,
    /// An earlier run left it on disk.
    Disk,
    /// It has just proved itself.
    Probed,
    /// Nothing has proved itself; the plain name is left.
    Fallback,
}

/// Whether a command is remembered for the rest of the run.
pub fn remembers(origin: Origin) -> (yes: bool)
    ensures
        yes == (origin != Origin::Memory),
{
    match origin {
        Origin::Memory => false,
        _ => true,
    }
}

/// Whether a command is left on disk for later runs: only one that has just proved itself.
pub fn persists(origin: Origin) -> (yes: bool)
    ensures
        yes == (origin == Origin::Probed),
{
    match origin {
        Origin::Probed => true,
        _ => false,
    }
}

/// The next step of the search for a command.
#[derive(Debug)]
pub enum PnpmStep {
    /// Read what an earlier run left on disk.
    ReadCache,
    /// Look whether the file of this command exists.
    CheckFile { command: String },
    /// Let this command prove itself.
    Probe { command: String },
    /// This command is used.
    Done { command: String, origin: Origin },
}

/// What a step of the search says.
pub enum PnpmStepModel {
    ReadCache,
    CheckFile { command: Seq<char> },
    Probe { command: Seq<char> },
    Done { command: Seq<char>, origin: Origin },
}

impl View for PnpmStep {
    type V = PnpmStepModel;

    open spec fn view(&self) -> PnpmStepModel {
        match self {
            PnpmStep::ReadCache => PnpmStepModel::ReadCache,
            PnpmStep::CheckFile { command } => PnpmStepModel::CheckFile { command: command@ },
            PnpmStep::Probe { command } => PnpmStepModel::Probe { command: command@ },
            PnpmStep::Done { command, origin } => PnpmStepModel::Done {
                command: command@,
                origin: *origin,
            },
        }
    }
}

/// A search for a command: what is tried, and how many of those have failed.
#[derive(Debug)]
pub struct PnpmSearch {
    platform: Platform,
    list: Vec<String>,
    failed: usize,
}

/// What a search holds.
#[verifier::ext_equal]
pub struct PnpmSearchModel {
    pub platform: Platform,
    pub list: Seq<Seq<char>>,
    pub failed: nat,
}

impl View for PnpmSearch {
    type V = PnpmSearchModel;

    closed spec fn view(&self) -> PnpmSearchModel {
        PnpmSearchModel {
            platform: self.platform,
            list: self.list.deep_view(),
            failed: self.failed as nat,
        }
    }
}

impl PnpmSearchModel {
    /// The step that tries the next command, or falls back on the plain name.
    pub open spec fn due(self) -> PnpmStepModel {
        if self.failed < self.list.len() {
            PnpmStepModel::Probe { command: self.list[self.failed as int] }
        } else {
            PnpmStepModel::Done { command: plain_name(self.platform), origin: Origin::Fallback }
        }
    }

    /// The step after the content of the file on disk is known. A command without a directory is
    /// taken as it is; one with a directory must exist.
    pub open spec fn cache_leads_to(self, content: Option<Seq<char>>) -> PnpmStepModel {
        match content {
            Some(text) => {
                let command = trimmed(text);
                if command.len() == 0 {
                    self.due()
                } else if command.contains(self.platform.spec_separator()) {
                    PnpmStepModel::CheckFile { command }
                } else {
                    PnpmStepModel::Done { command, origin: Origin::Disk }
                }
            },
            None => self.due(),
        }
    }

    /// The step after the look for the file of a command.
    pub open spec fn file_leads_to(self, command: Seq<char>, there: bool) -> PnpmStepModel {
        if there {
            PnpmStepModel::Done { command, origin: Origin::Disk }
        } else {
            self.due()
        }
    }

    /// The search after a command that is on the list has failed.
    pub open spec fn after_failure(self) -> PnpmSearchModel {
        if self.failed < self.list.len() {
            PnpmSearchModel { failed: self.failed + 1, ..self }
        } else {
            self
        }
    }

    /// The step after a command had its chance.
    pub open spec fn probe_leads_to(self, usable: bool) -> PnpmStepModel {
        if usable && self.failed < self.list.len() {
            PnpmStepModel::Done { command: self.list[self.failed as int], origin: Origin::Probed }
        } else {
            self.after_failure().due()
        }
    }
}

/// The first step: a command that this run has found before needs no search.
pub open spec fn first_step(known: Option<Seq<char>>) -> PnpmStepModel {
    match known {
        Some(command) => PnpmStepModel::Done { command, origin: Origin::Memory },
        None => PnpmStepModel::ReadCache,
    }
}

/// Begins the search, with the command that this run has found before, if any.
pub fn resolve_pnpm_command(known: Option<String>) -> (step: PnpmStep)
    ensures
        step@ == first_step(known.deep_view()),
{
    match known {
        Some(command) => PnpmStep::Done { command, origin: Origin::Memory },
        None => PnpmStep::ReadCache,
    }
}

impl PnpmSearch {
    /// A search on this system, in the given install directories.
    pub fn new(
        platform: Platform,
        appdata: Option<String>,
        program_files: Option<String>,
    ) -> (search: PnpmSearch)
        ensures
            search@ == (PnpmSearchModel {
                platform,
                list: candidates(platform, appdata.deep_view(), program_files.deep_view()),
                failed: 0,
            }),
    {
        PnpmSearch {
            platform,
            list: pnpm_candidates(platform, appdata, program_files),
            failed: 0,
        }
    }

    fn due_step(&self) -> (step: PnpmStep)
        ensures
            step@ == self@.due(),
    {
        if self.failed < self.list.len() {
            PnpmStep::Probe { command: self.list[self.failed].clone() }
        } else {
            PnpmStep::Done {
                command: default_pnpm_name(self.platform).to_string(),
                origin: Origin::Fallback,
            }
        }
    }

    /// Goes on with the content of the file on disk; `None` if it could not be read.
    pub fn cache_read(&self, content: Option<String>) -> (step: PnpmStep)
        ensures
            step@ == self@.cache_leads_to(content.deep_view()),
    {
        match content {
            Some(text) => {
                let command = trim(text.as_str());
                if command.as_str().is_empty() {
                    self.due_step()
                } else if contains_char(command.as_str(), self.platform.separator()) {
                    PnpmStep::CheckFile { command }
                } else {
                    PnpmStep::Done { command, origin: Origin::Disk }
                }
            },
            None => self.due_step(),
        }
    }

    /// Goes on after the look for the file of a command.
    pub fn file_checked(&self, command: String, there: bool) -> (step: PnpmStep)
        ensures
            step@ == self@.file_leads_to(command@, there),
    {
        if there {
            PnpmStep::Done { command, origin: Origin::Disk }
        } else {
            self.due_step()
        }
    }

    /// Goes on after a command had its chance.
    pub fn probed(&mut self, usable: bool) -> (step: PnpmStep)
        ensures
            usable ==> final(self)@ == old(self)@,
            !usable ==> final(self)@ == old(self)@.after_failure(),
            step@ == old(self)@.probe_leads_to(usable),
    {
        if usable && self.failed < self.list.len() {
            return PnpmStep::Done {
                command: self.list[self.failed].clone(),
                origin: Origin::Probed,
            };
        }
        if !usable && self.failed < self.list.len() {
            self.failed = self.failed + 1;
        }
        self.due_step()
    }
}

/// Where a search ends that has come to trying commands, if `usable` says which prove themselves.
pub open spec fn probing_end(
    search: PnpmSearchModel,
    usable: spec_fn(Seq<char>) -> bool,
) -> PnpmStepModel
    decreases search.list.len() - search.failed,
{
    match search.due() {
        PnpmStepModel::Probe { command } => match search.probe_leads_to(usable(command)) {
            PnpmStepModel::Done { command, origin } => PnpmStepModel::Done { command, origin },
            _ => probing_end(search.after_failure(), usable),
        },
        end => end,
    }
}

proof fn lemma_probing(search: PnpmSearchModel, usable: spec_fn(Seq<char>) -> bool, k: int)
    requires
        search.failed <= k <= search.list.len(),
        forall|i: int| search.failed <= i < k ==> !usable(#[trigger] search.list[i]),
        k < search.list.len() ==> usable(search.list[k]),
    ensures
        probing_end(search, usable) == (if k < search.list.len() {
            PnpmStepModel::Done { command: search.list[k], origin: Origin::Probed }
        } else {
            PnpmStepModel::Done { command: plain_name(search.platform), origin: Origin::Fallback }
        }),
    decreases search.list.len() - search.failed,
{
    if search.failed < k {
        assert(!usable(search.list[search.failed as int]));
        lemma_probing(search.after_failure(), usable, k);
    }
}

/// Trying takes the first command on the list that proves itself; if none does, the plain name is
/// left, and that is not kept on disk.
pub proof fn law_first_usable_command_wins(
    platform: Platform,
    list: Seq<Seq<char>>,
    usable: spec_fn(Seq<char>) -> bool,
    k: int,
)
    requires
        0 <= k <= list.len(),
        forall|i: int| 0 <= i < k ==> !usable(#[trigger] list[i]),
        k < list.len() ==> usable(list[k]),
    ensures
        probing_end(PnpmSearchModel { platform, list, failed: 0 }, usable) == (if k < list.len() {
            PnpmStepModel::Done { command: list[k], origin: Origin::Probed }
        } else {
            PnpmStepModel::Done { command: plain_name(platform), origin: Origin::Fallback }
        }),
{
    lemma_probing(PnpmSearchModel { platform, list, failed: 0 }, usable, k);
}

/// Where a whole search ends: `known` is what this run has found before, `content` what the file on
/// disk holds, `there` says which files exist, and `usable` which commands prove themselves.
pub open spec fn resolution(
    known: Option<Seq<char>>,
    search: PnpmSearchModel,
    content: Option<Seq<char>>,
    there: spec_fn(Seq<char>) -> bool,
    usable: spec_fn(Seq<char>) -> bool,
) -> PnpmStepModel {
    match first_step(known) {
        PnpmStepModel::ReadCache => match search.cache_leads_to(content) {
            PnpmStepModel::CheckFile { command } => match search.file_leads_to(
                command,
                there(command),
            ) {
                PnpmStepModel::Probe { .. } => probing_end(search, usable),
                end => end,
            },
            PnpmStepModel::Probe { .. } => probing_end(search, usable),
            end => end,
        },
        end => end,
    }
}

/// A search takes the command that this run has found before; else the one on disk, if it is not
/// empty and, where it names a directory, its file exists; else it tries the commands on its list.
pub proof fn law_search_order(
    known: Option<Seq<char>>,
    search: PnpmSearchModel,
    content: Option<Seq<char>>,
    there: spec_fn(Seq<char>) -> bool,
    usable: spec_fn(Seq<char>) -> bool,
)
    ensures
        resolution(known, search, content, there, usable) == (match (known, content) {
            (Some(command), _) => PnpmStepModel::Done { command, origin: Origin::Memory },
            (None, Some(text)) => {
                let command = trimmed(text);
                if command.len() > 0 && (!command.contains(search.platform.spec_separator())
                    || there(command)) {
                    PnpmStepModel::Done { command, origin: Origin::Disk }
                } else {
                    probing_end(search, usable)
                }
            },
            (None, None) => probing_end(search, usable),
        }),
{
}

/// The plain name is always tried, after everything else.
pub proof fn law_plain_name_is_tried_last(
    platform: Platform,
    appdata: Option<Seq<char>>,
    program_files: Option<Seq<char>>,
)
    ensures
        candidates(platform, appdata, program_files).last() == plain_name(platform),
        candidates(platform, appdata, program_files).len() <= 3,
{
}

/// A command that was left on disk is read back by a later run and used without being tried, unless
/// its file is gone. It must not be empty, nor begin or end with white space.
pub proof fn law_kept_command_is_used_again(search: PnpmSearchModel, command: Seq<char>)
    requires
        command.len() > 0,
        !crate::text::is_space(command[0]),
        !crate::text::is_space(command.last()),
    ensures
        search.cache_leads_to(Some(command)) == (if command.contains(
            search.platform.spec_separator(),
        ) {
            PnpmStepModel::CheckFile { command }
        } else {
            PnpmStepModel::Done { command, origin: Origin::Disk }
        }),
        search.file_leads_to(command, true) == (PnpmStepModel::Done {
            command,
            origin: Origin::Disk,
        }),
{
}

// ---------------------------------------------------------------------------
// Laws by the names of the commands
// ---------------------------------------------------------------------------

/// On Windows every install directory that is known is tried, whatever its name: first that of the
/// user, then that of the programs, and last the plain name. Elsewhere only the plain name is tried.
pub proof fn law_known_directories_are_tried(
    platform: Platform,
    appdata: Option<String>,
    program_files: Option<String>,
    list: Vec<String>,
)
    requires
        call_ensures(pnpm_candidates, (platform, appdata, program_files), list),
    ensures
        platform == Platform::Other ==> list@.len() == 1 && list@[0]@ == "pnpm"@,
        platform == Platform::Windows ==> {
            let n = list@.len() as int;
            &&& n == 1 + (if appdata is Some {
                1int
            } else {
                0
            }) + (if program_files is Some {
                1int
            } else {
                0
            })
            &&& appdata matches Some(dir) ==> list@[0]@ == dir@ + "\\npm\\pnpm.cmd"@
            &&& program_files matches Some(dir) ==> list@[n - 2]@ == dir@ + "\\nodejs\\pnpm.CMD"@
            &&& list@[n - 1]@ == "pnpm.cmd"@
        },
{
    let all = list.deep_view();
    assert(all.len() == list@.len());
    assert forall|i: int| 0 <= i < list@.len() implies #[trigger] all[i] == list@[i]@ by {}
    if platform == Platform::Windows {
        let n = list@.len() as int;
        assert(all[0] == list@[0]@);
        assert(all[n - 1] == list@[n - 1]@);
        if program_files is Some {
            assert(all[n - 2] == list@[n - 2]@);
        }
    } else {
        assert(all[0] == list@[0]@);
    }
}

/// The plain name that is left when nothing proves itself.
pub proof fn law_plain_name(platform: Platform, name: &'static str)
    requires
        call_ensures(default_pnpm_name, (platform,), name),
    ensures
        platform == Platform::Windows ==> name@ == "pnpm.cmd"@,
        platform == Platform::Other ==> name@ == "pnpm"@,
{
}

/// A search begins with nothing tried, and with the commands that are to be tried.
pub proof fn law_search_begins_with_the_candidates(
    platform: Platform,
    appdata: Option<String>,
    program_files: Option<String>,
    search: PnpmSearch,
    list: Vec<String>,
)
    requires
        call_ensures(PnpmSearch::new, (platform, appdata, program_files), search),
        call_ensures(pnpm_candidates, (platform, appdata, program_files), list),
    ensures
        search@.platform == platform,
        search@.list == list.deep_view(),
        search@.failed == 0,
{
}

/// A command that this run has found before is used as it is; without one the file on disk is read.
pub proof fn law_known_command_is_used(known: Option<String>, step: PnpmStep)
    requires
        call_ensures(resolve_pnpm_command, (known,), step),
    ensures
        known matches Some(command) ==> (step matches PnpmStep::Done { command: used, origin }
            && used@ == command@ && origin == Origin::Memory),
        known is None ==> step is ReadCache,
{
}

/// What the file on disk holds is a command with white space around it: without a separator of the
/// system it is used as it is, with one its file is looked for. A file that could not be read, or
/// that holds nothing but white space, leads to the first command on the list.
pub proof fn law_file_on_disk_is_read(
    search: &PnpmSearch,
    content: Option<String>,
    step: PnpmStep,
    pre: Seq<char>,
    command: Seq<char>,
    post: Seq<char>,
)
    requires
        call_ensures(PnpmSearch::cache_read, (search, content), step),
        content matches Some(text) ==> text@ == pre + command + post,
        forall|i: int| 0 <= i < pre.len() ==> is_space(#[trigger] pre[i]),
        forall|i: int| 0 <= i < post.len() ==> is_space(#[trigger] post[i]),
        command.len() > 0 ==> !is_space(command[0]) && !is_space(command.last()),
    ensures
        content is Some && command.len() > 0 ==> {
            let parted = if search@.platform == Platform::Windows {
                command.contains('\\')
            } else {
                command.contains('/')
            };
            &&& parted ==> (step matches PnpmStep::CheckFile { command: named } && named@ == command)
            &&& !parted ==> (step matches PnpmStep::Done { command: named, origin } && named@
                == command && origin == Origin::Disk)
        },
        (content is None || command.len() == 0) && search@.failed < search@.list.len() ==> (
        step matches PnpmStep::Probe { command: named } && named@
            == search@.list[search@.failed as int]),
{
    if content is Some {
        law_trimming_leaves_the_core(pre, command, post);
    }
}

/// A command whose file is there is used; one whose file is gone leads to the first command on the
/// list.
pub proof fn law_missing_file_starts_the_search(
    search: &PnpmSearch,
    command: String,
    there: bool,
    step: PnpmStep,
)
    requires
        call_ensures(PnpmSearch::file_checked, (search, command, there), step),
    ensures
        there ==> (step matches PnpmStep::Done { command: used, origin } && used@ == command@
            && origin == Origin::Disk),
        !there && search@.failed < search@.list.len() ==> (step matches PnpmStep::Probe {
            command: named,
        } && named@ == search@.list[search@.failed as int]),
{
}

/// A command on the list that proves itself is used and ends the search; one that fails makes room
/// for the next, and behind the last only the plain name is left.
pub proof fn law_commands_are_tried_in_turn(
    before: PnpmSearch,
    after: PnpmSearch,
    usable: bool,
    step: PnpmStep,
)
    requires
        exists|s: &mut PnpmSearch|
            *s == before && *final(s) == after && #[trigger] call_ensures(
                PnpmSearch::probed,
                (s, usable),
                step,
            ),
        before@.failed < before@.list.len(),
    ensures
        after@.list == before@.list,
        after@.platform == before@.platform,
        usable ==> after@.failed == before@.failed && (step matches PnpmStep::Done {
            command,
            origin,
        } && command@ == before@.list[before@.failed as int] && origin == Origin::Probed),
        !usable ==> after@.failed == before@.failed + 1,
        !usable && before@.failed + 1 < before@.list.len() ==> (step matches PnpmStep::Probe {
            command,
        } && command@ == before@.list[(before@.failed + 1) as int]),
        !usable && before@.failed + 1 == before@.list.len() ==> (step matches PnpmStep::Done {
            command,
            origin,
        } && origin == Origin::Fallback && command@ == (if before@.platform == Platform::Windows {
            "pnpm.cmd"@
        } else {
            "pnpm"@
        })),
{
}

/// Only a command that has just proved itself is left on disk, and every one that this run did not
/// know yet is remembered.
pub proof fn law_what_is_remembered(origin: Origin, remembered: bool, persisted: bool)
    requires
        call_ensures(remembers, (origin,), remembered),
        call_ensures(persists, (origin,), persisted),
    ensures
        persisted <==> origin == Origin::Probed,
        remembered <==> origin == Origin::Disk || origin == Origin::Probed || origin
            == Origin::Fallback,
{
}

} // verus!
