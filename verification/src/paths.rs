//! The files that the shell keeps in the user's configuration directory.

use vstd::prelude::*;

verus! {

#[verifier::external_type_specification]
#[verifier::external_body]
pub struct ExPathBuf(std::path::PathBuf);

/// Calls `dirs::config_dir`. What it finds depends on the user's environment, so nothing is
/// claimed of it.
pub assume_specification[ dirs::config_dir ]() -> (dir: Option<std::path::PathBuf>)
;

/// Where a path begins.
#[derive(Debug)]
pub enum Root {
    /// The user's configuration directory.
    User(std::path::PathBuf),
    /// A directory with a fixed name.
    Fixed(String),
}

/// A path: where it begins, and the names that follow, outermost first.
#[derive(Debug)]
pub struct DataPath {
    pub root: Root,
    pub parts: Vec<String>,
}

/// `root` is the configuration directory `home`, or the working directory if there is none.
pub open spec fn roots_at(home: Option<std::path::PathBuf>, root: Root) -> bool {
    match home {
        Some(dir) => root == Root::User(dir),
        None => root matches Root::Fixed(name) && name@ == "."@,
    }
}

/// `path` leads to `names` inside the shell's directory below `home`.
pub open spec fn leads_to(
    home: Option<std::path::PathBuf>,
    names: Seq<Seq<char>>,
    path: DataPath,
) -> bool {
    &&& roots_at(home, path.root)
    &&& path.parts.deep_view() == seq!["dsh-tauri-wrapper"@] + names
}

impl DataPath {
    /// The path with one more name at its end.
    pub fn join(self, name: &str) -> (joined: DataPath)
        ensures
            joined.root == self.root,
            joined.parts.deep_view() == self.parts.deep_view().push(name@),
    {
        let mut parts = self.parts;
        parts.push(name.to_string());
        proof {
            assert(parts.deep_view() =~= self.parts.deep_view().push(name@));
        }
        DataPath { root: self.root, parts }
    }
}

/// The shell's directory below the configuration directory `home`.
pub fn config_dir_under(home: Option<std::path::PathBuf>) -> (dir: DataPath)
    ensures
        leads_to(home, Seq::empty(), dir),
{
    let root = match home {
        Some(dir) => Root::User(dir),
        None => Root::Fixed(".".to_string()),
    };
    let dir = DataPath { root, parts: Vec::new() }.join("dsh-tauri-wrapper");
    proof {
        assert(dir.parts.deep_view() =~= seq!["dsh-tauri-wrapper"@] + Seq::empty());
    }
    dir
}

/// The shell's directory.
pub fn config_dir() -> (dir: DataPath)
    ensures
        exists|home: Option<std::path::PathBuf>| leads_to(home, Seq::empty(), dir),
{
    config_dir_under(dirs::config_dir())
}

/// The file `name` in the shell's directory below `home`.
fn file_under(home: Option<std::path::PathBuf>, name: &str) -> (path: DataPath)
    ensures
        leads_to(home, seq![name@], path),
{
    let path = config_dir_under(home).join(name);
    proof {
        assert(path.parts.deep_view() =~= seq!["dsh-tauri-wrapper"@] + seq![name@]);
    }
    path
}

/// The file that the shell logs its own events to, below the configuration directory `home`.
pub fn wrapper_log_path_under(home: Option<std::path::PathBuf>) -> (path: DataPath)
    ensures
        leads_to(home, seq!["wrapper.log"@], path),
{
    file_under(home, "wrapper.log")
}

/// The file that the shell logs its own events to.
pub fn get_wrapper_log_path() -> (path: DataPath)
    ensures
        exists|home: Option<std::path::PathBuf>| leads_to(home, seq!["wrapper.log"@], path),
{
    wrapper_log_path_under(dirs::config_dir())
}

/// The file that the output of DSH is copied to, below the configuration directory `home`.
pub fn dsh_log_path_under(home: Option<std::path::PathBuf>) -> (path: DataPath)
    ensures
        leads_to(home, seq!["ds"@, "log"@], path),
{
    let path = file_under(home, "ds").join("log");
    proof {
        assert(path.parts.deep_view() =~= seq!["dsh-tauri-wrapper"@] + seq!["ds"@, "log"@]);
    }
    path
}

/// The file that the output of DSH is copied to.
pub fn get_dsh_log_path() -> (path: DataPath)
    ensures
        exists|home: Option<std::path::PathBuf>| leads_to(home, seq!["ds"@, "log"@], path),
{
    dsh_log_path_under(dirs::config_dir())
}

/// The file that holds the settings, below the configuration directory `home`.
pub fn config_path_under(home: Option<std::path::PathBuf>) -> (path: DataPath)
    ensures
        leads_to(home, seq!["config.json"@], path),
{
    file_under(home, "config.json")
}

/// The file that holds the settings.
pub fn get_config_path() -> (path: DataPath)
    ensures
        exists|home: Option<std::path::PathBuf>| leads_to(home, seq!["config.json"@], path),
{
    config_path_under(dirs::config_dir())
}

/// The file that remembers which pnpm command works, below the configuration directory `home`.
pub fn pnpm_command_cache_path_under(home: Option<std::path::PathBuf>) -> (path: DataPath)
    ensures
        leads_to(home, seq!["pnpm-command.txt"@], path),
{
    file_under(home, "pnpm-command.txt")
}

/// The file that remembers which pnpm command works.
pub fn pnpm_command_cache_path() -> (path: DataPath)
    ensures
        exists|home: Option<std::path::PathBuf>| leads_to(home, seq!["pnpm-command.txt"@], path),
{
    pnpm_command_cache_path_under(dirs::config_dir())
}

/// The two logs, the settings and the remembered command are four different files.
pub proof fn law_files_are_distinct(
    log: DataPath,
    dsh_log: DataPath,
    config: DataPath,
    cache: DataPath,
    home: Option<std::path::PathBuf>,
)
    requires
        leads_to(home, seq!["wrapper.log"@], log),
        leads_to(home, seq!["ds"@, "log"@], dsh_log),
        leads_to(home, seq!["config.json"@], config),
        leads_to(home, seq!["pnpm-command.txt"@], cache),
    ensures
        log.parts.deep_view() != dsh_log.parts.deep_view(),
        log.parts.deep_view() != config.parts.deep_view(),
        log.parts.deep_view() != cache.parts.deep_view(),
        dsh_log.parts.deep_view() != config.parts.deep_view(),
        dsh_log.parts.deep_view() != cache.parts.deep_view(),
        config.parts.deep_view() != cache.parts.deep_view(),
{
    reveal_strlit("wrapper.log");
    reveal_strlit("config.json");
    reveal_strlit("pnpm-command.txt");
    assert(dsh_log.parts.deep_view().len() == 3);
    assert(log.parts.deep_view().len() == 2);
    assert(config.parts.deep_view().len() == 2);
    assert(cache.parts.deep_view().len() == 2);
    assert(log.parts.deep_view()[1] == "wrapper.log"@);
    assert(config.parts.deep_view()[1] == "config.json"@);
    assert(cache.parts.deep_view()[1] == "pnpm-command.txt"@);
    assert("wrapper.log"@[0] != "config.json"@[0]);
    assert("wrapper.log"@[0] != "pnpm-command.txt"@[0]);
    assert("config.json"@[0] != "pnpm-command.txt"@[0]);
}

/// `path` begins at the configuration directory `home`, or at the working directory without one, and
/// the names that follow are these.
pub open spec fn stands_below(
    home: Option<std::path::PathBuf>,
    names: Seq<Seq<char>>,
    path: DataPath,
) -> bool {
    &&& home matches Some(dir) ==> path.root == Root::User(dir)
    &&& home is None ==> (path.root matches Root::Fixed(name) && name@ == "."@)
    &&& path.parts@.len() == names.len()
    &&& forall|i: int| 0 <= i < names.len() ==> (#[trigger] path.parts@[i])@ == names[i]
}

/// All files stand in the shell's own directory below the configuration directory, under their own
/// names.
pub proof fn law_where_files_stand(
    home: Option<std::path::PathBuf>,
    dir: DataPath,
    log: DataPath,
    dsh_log: DataPath,
    config: DataPath,
    cache: DataPath,
)
    requires
        call_ensures(config_dir_under, (home,), dir),
        call_ensures(wrapper_log_path_under, (home,), log),
        call_ensures(dsh_log_path_under, (home,), dsh_log),
        call_ensures(config_path_under, (home,), config),
        call_ensures(pnpm_command_cache_path_under, (home,), cache),
    ensures
        stands_below(home, seq!["dsh-tauri-wrapper"@], dir),
        stands_below(home, seq!["dsh-tauri-wrapper"@, "wrapper.log"@], log),
        stands_below(home, seq!["dsh-tauri-wrapper"@, "ds"@, "log"@], dsh_log),
        stands_below(home, seq!["dsh-tauri-wrapper"@, "config.json"@], config),
        stands_below(home, seq!["dsh-tauri-wrapper"@, "pnpm-command.txt"@], cache),
{
    lemma_stands_below(home, Seq::empty(), dir);
    lemma_stands_below(home, seq!["wrapper.log"@], log);
    lemma_stands_below(home, seq!["ds"@, "log"@], dsh_log);
    lemma_stands_below(home, seq!["config.json"@], config);
    lemma_stands_below(home, seq!["pnpm-command.txt"@], cache);
    let own = seq!["dsh-tauri-wrapper"@];
    assert(own + Seq::empty() =~= own);
    assert(own + seq!["wrapper.log"@] =~= seq!["dsh-tauri-wrapper"@, "wrapper.log"@]);
    assert(own + seq!["ds"@, "log"@] =~= seq!["dsh-tauri-wrapper"@, "ds"@, "log"@]);
    assert(own + seq!["config.json"@] =~= seq!["dsh-tauri-wrapper"@, "config.json"@]);
    assert(own + seq!["pnpm-command.txt"@] =~= seq!["dsh-tauri-wrapper"@, "pnpm-command.txt"@]);
}

proof fn lemma_stands_below(
    home: Option<std::path::PathBuf>,
    names: Seq<Seq<char>>,
    path: DataPath,
)
    requires
        leads_to(home, names, path),
    ensures
        stands_below(home, seq!["dsh-tauri-wrapper"@] + names, path),
{
    let all = path.parts.deep_view();
    assert(all.len() == path.parts@.len());
    assert forall|i: int| 0 <= i < all.len() implies (#[trigger] path.parts@[i])@ == all[i] by {}
}

/// `path` stands so below some configuration directory, or the working directory.
pub open spec fn stands_below_some_home(names: Seq<Seq<char>>, path: DataPath) -> bool {
    exists|home: Option<std::path::PathBuf>| #[trigger] stands_below(home, names, path)
}

/// Where the files stand in a run, whatever the environment gives: under their own names.
pub proof fn law_where_files_stand_in_a_run(
    dir: DataPath,
    log: DataPath,
    dsh_log: DataPath,
    config: DataPath,
    cache: DataPath,
)
    requires
        call_ensures(config_dir, (), dir),
        call_ensures(get_wrapper_log_path, (), log),
        call_ensures(get_dsh_log_path, (), dsh_log),
        call_ensures(get_config_path, (), config),
        call_ensures(pnpm_command_cache_path, (), cache),
    ensures
        stands_below_some_home(seq!["dsh-tauri-wrapper"@], dir),
        stands_below_some_home(seq!["dsh-tauri-wrapper"@, "wrapper.log"@], log),
        stands_below_some_home(seq!["dsh-tauri-wrapper"@, "ds"@, "log"@], dsh_log),
        stands_below_some_home(seq!["dsh-tauri-wrapper"@, "config.json"@], config),
        stands_below_some_home(seq!["dsh-tauri-wrapper"@, "pnpm-command.txt"@], cache),
{
    let own = seq!["dsh-tauri-wrapper"@];
    assert(own + Seq::empty() =~= own);
    assert(own + seq!["wrapper.log"@] =~= seq!["dsh-tauri-wrapper"@, "wrapper.log"@]);
    assert(own + seq!["ds"@, "log"@] =~= seq!["dsh-tauri-wrapper"@, "ds"@, "log"@]);
    assert(own + seq!["config.json"@] =~= seq!["dsh-tauri-wrapper"@, "config.json"@]);
    assert(own + seq!["pnpm-command.txt"@] =~= seq!["dsh-tauri-wrapper"@, "pnpm-command.txt"@]);
    let h0 = choose|home: Option<std::path::PathBuf>| leads_to(home, Seq::empty(), dir);
    let h1 = choose|home: Option<std::path::PathBuf>| leads_to(home, seq!["wrapper.log"@], log);
    let h2 = choose|home: Option<std::path::PathBuf>| leads_to(home, seq!["ds"@, "log"@], dsh_log);
    let h3 = choose|home: Option<std::path::PathBuf>| leads_to(home, seq!["config.json"@], config);
    let h4 = choose|home: Option<std::path::PathBuf>|
        leads_to(home, seq!["pnpm-command.txt"@], cache);
    lemma_stands_below(h0, Seq::empty(), dir);
    lemma_stands_below(h1, seq!["wrapper.log"@], log);
    lemma_stands_below(h2, seq!["ds"@, "log"@], dsh_log);
    lemma_stands_below(h3, seq!["config.json"@], config);
    lemma_stands_below(h4, seq!["pnpm-command.txt"@], cache);
}

} // verus!
