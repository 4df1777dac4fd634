//! The settings that are kept between runs, and what they decide.

use vstd::prelude::*;

use crate::text::same;

verus! {

/// Directory of the DSH sources that is tried without being configured, and that is left when the
/// user picks none.
pub const DEFAULT_DSH_DIR: &'static str = r"D:\DeepSeekHarness\deepseek-harness";

/// Close action: the window goes to the tray.
pub const CLOSE_ACTION_TRAY: &'static str = "tray";

/// Close action: the shell ends.
pub const CLOSE_ACTION_EXIT: &'static str = "exit";

/// The settings. The captured address is not among them: a token is not kept.
#[derive(Clone, Debug)]
pub struct Config {
    pub dsh_dir: String,
    /// `None` until the user has been asked.
    pub close_action: Option<String>,
}

/// What the settings say.
#[verifier::ext_equal]
pub struct ConfigModel {
    pub dsh_dir: Seq<char>,
    pub close_action: Option<Seq<char>>,
}

impl View for Config {
    type V = ConfigModel;

    open spec fn view(&self) -> ConfigModel {
        ConfigModel { dsh_dir: self.dsh_dir@, close_action: self.close_action.deep_view() }
    }
}

/// The settings of a first run.
pub open spec fn initial() -> ConfigModel {
    ConfigModel { dsh_dir: Seq::empty(), close_action: None }
}

/// What the settings say, as far as any are kept.
pub open spec fn stored(config: Option<Config>) -> Option<ConfigModel> {
    match config {
        Some(config) => Some(config@),
        None => None,
    }
}

/// The kept settings, or those of a first run.
pub open spec fn kept(config: Option<ConfigModel>) -> ConfigModel {
    match config {
        Some(config) => config,
        None => initial(),
    }
}

impl Default for Config {
    fn default() -> (config: Config)
        ensures
            config@ == initial(),
    {
        Config { dsh_dir: String::new(), close_action: None }
    }
}

fn kept_or_initial(config: Option<Config>) -> (base: Config)
    ensures
        base@ == kept(stored(config)),
{
    match config {
        Some(config) => config,
        None => Config::default(),
    }
}

// ---------------------------------------------------------------------------
// Closing the window
// ---------------------------------------------------------------------------

/// The close action that is in force; without a choice, the tray.
pub open spec fn close_action_in(config: Option<ConfigModel>) -> Seq<char> {
    match config {
        Some(ConfigModel { close_action: Some(action), .. }) => action,
        _ => CLOSE_ACTION_TRAY@,
    }
}

/// The close action that is in force; without a choice, the tray.
pub fn current_close_action(config: &Option<Config>) -> (action: String)
    ensures
        action@ == close_action_in(stored(*config)),
{
    match config {
        Some(config) => match &config.close_action {
            Some(action) => action.clone(),
            None => CLOSE_ACTION_TRAY.to_string(),
        },
        None => CLOSE_ACTION_TRAY.to_string(),
    }
}

/// Settings with another close action.
pub open spec fn with_close_action(config: Option<ConfigModel>, action: Seq<char>) -> ConfigModel {
    ConfigModel { close_action: Some(action), ..kept(config) }
}

/// Changes the close action and nothing else.
pub fn update_close_action(config: Option<Config>, action: &str) -> (updated: Config)
    ensures
        updated@ == with_close_action(stored(config), action@),
{
    let base = kept_or_initial(config);
    Config { dsh_dir: base.dsh_dir, close_action: Some(action.to_string()) }
}

/// Settings with another DSH directory.
pub open spec fn with_dsh_dir(config: Option<ConfigModel>, dir: Seq<char>) -> ConfigModel {
    ConfigModel { dsh_dir: dir, ..kept(config) }
}

/// Changes the DSH directory and nothing else.
pub fn update_dsh_dir(config: Option<Config>, dir: &str) -> (updated: Config)
    ensures
        updated@ == with_dsh_dir(stored(config), dir@),
{
    let base = kept_or_initial(config);
    Config { dsh_dir: dir.to_string(), close_action: base.close_action }
}

/// Whether the user is still to be asked what closing the window means.
pub fn asks_close_action(config: &Option<Config>) -> (ask: bool)
    ensures
        ask == (kept(stored(*config)).close_action is None),
{
    match config {
        Some(config) => config.close_action.is_none(),
        None => true,
    }
}

/// What happens when the user closes the window. The window itself is never destroyed.
#[derive(Clone, Copy, Debug, PartialEq, Eq, Structural)]
pub enum CloseDecision {
    /// The window is hidden; everything runs on.
    Hide,
    /// The window is hidden, and the user is asked what closing it means from now on.
    HideAndAsk,
    /// The window is hidden and the shell ends.
    HideAndQuit,
}

/// What closing the window does. Without a choice, and under an unknown action, it goes to the tray;
/// without a choice the user is asked as well.
pub open spec fn close_decision(config: Option<ConfigModel>) -> CloseDecision {
    if kept(config).close_action is None {
        CloseDecision::HideAndAsk
    } else if close_action_in(config) == CLOSE_ACTION_EXIT@ {
        CloseDecision::HideAndQuit
    } else {
        CloseDecision::Hide
    }
}

/// What closing the window does.
pub fn close_requested(config: &Option<Config>) -> (decision: CloseDecision)
    ensures
        decision == close_decision(stored(*config)),
{
    if asks_close_action(config) {
        return CloseDecision::HideAndAsk;
    }
    let action = current_close_action(config);
    if same(action.as_str(), CLOSE_ACTION_EXIT) {
        CloseDecision::HideAndQuit
    } else {
        CloseDecision::Hide
    }
}

/// Whether the tray entry for closing to the tray carries a check mark.
pub fn close_to_tray_checked(action: &str) -> (checked: bool)
    ensures
        checked == (action@ != CLOSE_ACTION_EXIT@),
{
    !same(action, CLOSE_ACTION_EXIT)
}

/// What an answer to the question about closing sets in motion.
#[derive(Clone, Copy, Debug)]
pub struct CloseAnswer {
    pub action: &'static str,
    pub checked: bool,
    pub quit: bool,
}

/// The close action that the user chose: the tray, or the end of the shell, which then follows at
/// once.
pub fn close_answered(to_tray: bool) -> (answer: CloseAnswer)
    ensures
        answer.action@ == (if to_tray {
            CLOSE_ACTION_TRAY@
        } else {
            CLOSE_ACTION_EXIT@
        }),
        answer.checked == to_tray,
        answer.quit == !to_tray,
{
    if to_tray {
        CloseAnswer { action: CLOSE_ACTION_TRAY, checked: true, quit: false }
    } else {
        CloseAnswer { action: CLOSE_ACTION_EXIT, checked: false, quit: true }
    }
}

/// The close action that the tray entry changes to.
pub open spec fn other_action(action: Seq<char>) -> Seq<char> {
    if action == CLOSE_ACTION_EXIT@ {
        CLOSE_ACTION_TRAY@
    } else {
        CLOSE_ACTION_EXIT@
    }
}

/// The close action that the tray entry changes to.
pub fn toggled_close_action(action: &str) -> (toggled: &'static str)
    ensures
        toggled@ == other_action(action@),
{
    if same(action, CLOSE_ACTION_EXIT) {
        CLOSE_ACTION_TRAY
    } else {
        CLOSE_ACTION_EXIT
    }
}

/// A close action that was chosen is the one in force afterwards, and the directory stays.
pub proof fn law_chosen_action_is_in_force(config: Option<ConfigModel>, action: Seq<char>)
    ensures
        close_action_in(Some(with_close_action(config, action))) == action,
        with_close_action(config, action).dsh_dir == kept(config).dsh_dir,
{
}

/// A change of the directory leaves the close action as it was, even the question whether one was
/// chosen.
pub proof fn law_directory_change_keeps_close_action(config: Option<ConfigModel>, dir: Seq<char>)
    ensures
        with_dsh_dir(config, dir).dsh_dir == dir,
        with_dsh_dir(config, dir).close_action == kept(config).close_action,
        close_action_in(Some(with_dsh_dir(config, dir))) == close_action_in(config),
{
}

/// The two settings can be changed in either order.
pub proof fn law_changes_commute(config: Option<ConfigModel>, dir: Seq<char>, action: Seq<char>)
    ensures
        with_dsh_dir(Some(with_close_action(config, action)), dir) == with_close_action(
            Some(with_dsh_dir(config, dir)),
            action,
        ),
{
}

/// The tray entry changes what closing the window does each time, and leads back from either action.
pub proof fn law_toggle_goes_both_ways(config: Option<ConfigModel>)
    ensures
        ({
            let once = with_close_action(config, other_action(close_action_in(config)));
            let twice = with_close_action(Some(once), other_action(close_action_in(Some(once))));
            &&& close_decision(Some(once)) != close_decision(config)
            &&& close_decision(Some(twice)) != close_decision(Some(once))
            &&& close_action_in(config) == CLOSE_ACTION_TRAY@ || close_action_in(config)
                == CLOSE_ACTION_EXIT@ ==> close_action_in(Some(twice)) == close_action_in(config)
        }),
{
    lemma_actions_differ();
}

/// The shell ends with its window only where the user has chosen so, and the user is asked only
/// until a choice is made.
pub proof fn law_quitting_needs_a_choice(config: Option<ConfigModel>, action: Seq<char>)
    ensures
        close_decision(config) == CloseDecision::HideAndQuit <==> kept(config).close_action == Some(
            CLOSE_ACTION_EXIT@,
        ),
        close_decision(config) == CloseDecision::HideAndAsk <==> kept(config).close_action is None,
        close_decision(Some(with_close_action(config, action))) != CloseDecision::HideAndAsk,
{
    lemma_actions_differ();
}

proof fn lemma_actions_differ()
    ensures
        CLOSE_ACTION_TRAY@ != CLOSE_ACTION_EXIT@,
{
    reveal_strlit("tray");
    reveal_strlit("exit");
    assert(CLOSE_ACTION_TRAY@[0] != CLOSE_ACTION_EXIT@[0]);
}

// ---------------------------------------------------------------------------
// Finding the DSH directory
// ---------------------------------------------------------------------------

/// The next step of the search for the DSH directory.
#[derive(Debug)]
pub enum DirStep {
    /// Look whether the configured directory exists.
    CheckConfigured { dir: String },
    /// Look whether the default directory exists.
    CheckDefault,
    /// Let the user pick a directory.
    Ask,
    /// This directory is used, and kept in the settings if `save` says so.
    Done { dir: String, save: bool },
}

/// What a step of the search says.
pub enum DirStepModel {
    CheckConfigured { dir: Seq<char> },
    CheckDefault,
    Ask,
    Done { dir: Seq<char>, save: bool },
}

impl View for DirStep {
    type V = DirStepModel;

    open spec fn view(&self) -> DirStepModel {
        match self {
            DirStep::CheckConfigured { dir } => DirStepModel::CheckConfigured { dir: dir@ },
            DirStep::CheckDefault => DirStepModel::CheckDefault,
            DirStep::Ask => DirStepModel::Ask,
            DirStep::Done { dir, save } => DirStepModel::Done { dir: dir@, save: *save },
        }
    }
}

/// The first step: a configured directory is looked at before the default.
pub open spec fn first_dir_step(config: Option<ConfigModel>) -> DirStepModel {
    let dir = kept(config).dsh_dir;
    if dir.len() > 0 {
        DirStepModel::CheckConfigured { dir }
    } else {
        DirStepModel::CheckDefault
    }
}

/// The step after the look at the configured directory.
pub open spec fn after_configured(dir: Seq<char>, exists: bool) -> DirStepModel {
    if exists {
        DirStepModel::Done { dir, save: false }
    } else {
        DirStepModel::CheckDefault
    }
}

/// The step after the look at the default directory.
pub open spec fn after_default(exists: bool) -> DirStepModel {
    if exists {
        DirStepModel::Done { dir: DEFAULT_DSH_DIR@, save: true }
    } else {
        DirStepModel::Ask
    }
}

/// The step after the user was asked.
pub open spec fn after_ask(picked: Option<Seq<char>>) -> DirStepModel {
    match picked {
        Some(dir) => DirStepModel::Done { dir, save: true },
        None => DirStepModel::Done { dir: DEFAULT_DSH_DIR@, save: false },
    }
}

/// Begins the search for the DSH directory.
pub fn ensure_dsh_dir(config: &Option<Config>) -> (step: DirStep)
    ensures
        step@ == first_dir_step(stored(*config)),
{
    match config {
        Some(config) => {
            if config.dsh_dir.as_str().is_empty() {
                DirStep::CheckDefault
            } else {
                DirStep::CheckConfigured { dir: config.dsh_dir.clone() }
            }
        },
        None => DirStep::CheckDefault,
    }
}

/// Goes on after the look at the configured directory.
pub fn configured_dir_checked(dir: String, exists: bool) -> (step: DirStep)
    ensures
        step@ == after_configured(dir@, exists),
{
    if exists {
        DirStep::Done { dir, save: false }
    } else {
        DirStep::CheckDefault
    }
}

/// Goes on after the look at the default directory.
pub fn default_dir_checked(exists: bool) -> (step: DirStep)
    ensures
        step@ == after_default(exists),
{
    if exists {
        DirStep::Done { dir: DEFAULT_DSH_DIR.to_string(), save: true }
    } else {
        DirStep::Ask
    }
}

/// Goes on after the user was asked.
pub fn dir_picked(picked: Option<String>) -> (step: DirStep)
    ensures
        step@ == after_ask(picked.deep_view()),
{
    match picked {
        Some(dir) => DirStep::Done { dir, save: true },
        None => DirStep::Done { dir: DEFAULT_DSH_DIR.to_string(), save: false },
    }
}

/// Where a search that has come to `step` ends, if `present` says which directories there are and
/// the user, once asked, picks `picked`.
pub open spec fn search_end(
    step: DirStepModel,
    present: spec_fn(Seq<char>) -> bool,
    picked: Option<Seq<char>>,
) -> (Seq<char>, bool)
    decreases
        (match step {
            DirStepModel::CheckConfigured { .. } => 3nat,
            DirStepModel::CheckDefault => 2nat,
            DirStepModel::Ask => 1nat,
            DirStepModel::Done { .. } => 0nat,
        }),
{
    match step {
        DirStepModel::CheckConfigured { dir } => search_end(
            after_configured(dir, present(dir)),
            present,
            picked,
        ),
        DirStepModel::CheckDefault => search_end(
            after_default(present(DEFAULT_DSH_DIR@)),
            present,
            picked,
        ),
        DirStepModel::Ask => search_end(after_ask(picked), present, picked),
        DirStepModel::Done { dir, save } => (dir, save),
    }
}

/// The search takes the configured directory if it is there, else the default if it is there, else
/// what the user picks, else the default; and it keeps what it found unless that was configured or
/// nothing was found.
pub proof fn law_directory_search(
    config: Option<ConfigModel>,
    present: spec_fn(Seq<char>) -> bool,
    picked: Option<Seq<char>>,
)
    ensures
        search_end(first_dir_step(config), present, picked) == (if kept(config).dsh_dir.len() > 0
            && present(kept(config).dsh_dir) {
            (kept(config).dsh_dir, false)
        } else if present(DEFAULT_DSH_DIR@) {
            (DEFAULT_DSH_DIR@, true)
        } else {
            match picked {
                Some(dir) => (dir, true),
                None => (DEFAULT_DSH_DIR@, false),
            }
        }),
{
    reveal_with_fuel(search_end, 4);
}

// ---------------------------------------------------------------------------
// Laws by what the settings hold
// ---------------------------------------------------------------------------

/// What settings say is what they hold.
pub proof fn law_settings_say_what_they_hold(config: Config)
    ensures
        config@.dsh_dir == config.dsh_dir@,
        config.close_action matches Some(action) ==> config@.close_action == Some(action@),
        config.close_action is None ==> config@.close_action is None,
{
}

/// The close action in force is the one that is kept, whatever it is, and the tray if none is.
pub proof fn law_kept_action_is_in_force(config: &Option<Config>, action: String, ask: bool)
    requires
        call_ensures(current_close_action, (config,), action),
        call_ensures(asks_close_action, (config,), ask),
    ensures
        ({
            let held = if config is Some {
                config->0.close_action
            } else {
                None
            };
            &&& held matches Some(kept) ==> action@ == kept@
            &&& held is None ==> action@ == "tray"@
            &&& ask <==> held is None
        }),
{
}

/// A change of the close action is kept as it is and leaves the directory; a change of the directory
/// is kept as it is and leaves the close action. Settings that are not there yet begin empty.
pub proof fn law_each_change_leaves_the_other(
    config: Option<Config>,
    action: &str,
    acted: Config,
    dir: &str,
    moved: Config,
)
    requires
        call_ensures(update_close_action, (config, action), acted),
        call_ensures(update_dsh_dir, (config, dir), moved),
    ensures
        acted.close_action matches Some(kept) && kept@ == action@,
        moved.dsh_dir@ == dir@,
        config matches Some(old) ==> acted.dsh_dir@ == old.dsh_dir@ && moved.close_action.deep_view()
            == old.close_action.deep_view(),
        config is None ==> acted.dsh_dir@.len() == 0 && moved.close_action is None,
{
    assert(acted@.close_action == Some(action@));
    assert(acted.close_action.deep_view() == Some(action@));
    if config is None {
        assert(moved@.close_action is None);
    }
}

/// Closing the window ends the shell exactly if the user has chosen so, asks exactly if nothing has
/// been chosen, and else hides the window.
pub proof fn law_closing_follows_the_choice(config: &Option<Config>, decision: CloseDecision)
    requires
        call_ensures(close_requested, (config,), decision),
    ensures
        ({
            let held = if config is Some {
                config->0.close_action
            } else {
                None
            };
            &&& decision == CloseDecision::HideAndAsk <==> held is None
            &&& decision == CloseDecision::HideAndQuit <==> (held matches Some(action) && action@
                == "exit"@)
            &&& decision == CloseDecision::Hide <==> (held matches Some(action) && action@
                != "exit"@)
        }),
{
}

/// The entry in the tray is checked unless closing ends the shell, and it changes one action into the
/// other.
pub proof fn law_tray_entry_follows_the_action(
    action: &str,
    checked: bool,
    toggled: &'static str,
)
    requires
        call_ensures(close_to_tray_checked, (action,), checked),
        call_ensures(toggled_close_action, (action,), toggled),
    ensures
        checked <==> action@ != "exit"@,
        checked ==> toggled@ == "exit"@,
        !checked ==> toggled@ == "tray"@,
{
}

/// The answer to the question about closing is kept, shown by the tray, and followed at once.
pub proof fn law_answer_is_followed(to_tray: bool, answer: CloseAnswer)
    requires
        call_ensures(close_answered, (to_tray,), answer),
    ensures
        to_tray ==> answer.action@ == "tray"@ && answer.checked && !answer.quit,
        !to_tray ==> answer.action@ == "exit"@ && !answer.checked && answer.quit,
{
}

/// The steps of the search for the directory: a configured one is looked at, whatever it is called;
/// then the default; then the user is asked. What was found or picked is used as it is, and kept
/// unless it was configured; without a pick the default is used and not kept.
pub proof fn law_directory_is_found(
    config: &Option<Config>,
    first: DirStep,
    dir: String,
    there: bool,
    second: DirStep,
    usual: bool,
    third: DirStep,
    picked: Option<String>,
    last: DirStep,
)
    requires
        call_ensures(ensure_dsh_dir, (config,), first),
        call_ensures(configured_dir_checked, (dir, there), second),
        call_ensures(default_dir_checked, (usual,), third),
        call_ensures(dir_picked, (picked,), last),
    ensures
        ({
            let held = if config is Some {
                config->0.dsh_dir@
            } else {
                Seq::empty()
            };
            &&& held.len() > 0 ==> (first matches DirStep::CheckConfigured { dir } && dir@ == held)
            &&& held.len() == 0 ==> first is CheckDefault
        }),
        there ==> (second matches DirStep::Done { dir: found, save } && found@ == dir@ && !save),
        !there ==> second is CheckDefault,
        usual ==> (third matches DirStep::Done { dir: found, save } && found@
            == r"D:\DeepSeekHarness\deepseek-harness"@ && save),
        !usual ==> third is Ask,
        picked matches Some(dir) ==> (last matches DirStep::Done { dir: found, save } && found@
            == dir@ && save),
        picked is None ==> (last matches DirStep::Done { dir: found, save } && found@
            == r"D:\DeepSeekHarness\deepseek-harness"@ && !save),
{
}

} // verus!
