//! Games that Steam owns: the runner bound to a game in Steam's
//! configuration, the process that runs a program inside the game's prefix,
//! and the removal of the game's directories.

use crate::gamelib_helper::steam_proton::{highest_index, is_highest};
use crate::gamelib_helper::{
    BindingError, Completion, Game, LaunchError, LaunchPlan, LaunchPlanView, MaintenanceError,
    Output, PrefixLauncher, Runner, RunnerView, WipeAction,
};
use crate::gamelib_helper::steam_config::{binding_of, read_binding, rebind, rebound};
use crate::paths::{body_start, component_start, join, joined, parent, parent_of, trimmed_end};
use crate::text::{
    contains, decimal, decimal_text, digit_char, has_infix, occurs_at, same_text, texts,
};
use vstd::prelude::*;

verus! {

/// A game in a Steam library.
#[derive(Debug, PartialEq, Eq)]
pub struct SteamGame {
    pub app_id: u32,
    pub name: String,
    /// The directory that holds the game's files.
    pub path: String,
    /// The root of the game's prefix.
    pub prefix: String,
    /// The root of the Steam installation.
    pub client_path: String,
    pub runner: Option<Runner>,
}

/// What a Steam game holds, as plain text.
pub struct SteamGameView {
    pub app_id: u32,
    pub name: Seq<char>,
    pub path: Seq<char>,
    pub prefix: Seq<char>,
    pub client_path: Seq<char>,
    pub runner: Option<RunnerView>,
}

impl View for SteamGame {
    type V = SteamGameView;

    open spec fn view(&self) -> SteamGameView {
        SteamGameView {
            app_id: self.app_id,
            name: self.name@,
            path: self.path@,
            prefix: self.prefix@,
            client_path: self.client_path@,
            runner: match self.runner {
                Some(r) => Some(r@),
                None => None,
            },
        }
    }
}

impl Clone for SteamGame {
    fn clone(&self) -> (r: Self)
        ensures
            r == *self,
    {
        let runner = match &self.runner {
            Some(x) => Some(x.clone()),
            None => None,
        };
        SteamGame {
            app_id: self.app_id,
            name: self.name.clone(),
            path: self.path.clone(),
            prefix: self.prefix.clone(),
            client_path: self.client_path.clone(),
            runner,
        }
    }
}

impl Game for SteamGame {
    fn app_id(&self) -> (r: u32)
        ensures
            r == self.app_id,
    {
        self.app_id
    }

    fn name(&self) -> (r: &str)
        ensures
            r@ == self.name@,
    {
        self.name.as_str()
    }

    fn path(&self) -> (r: &str)
        ensures
            r@ == self.path@,
    {
        self.path.as_str()
    }

    fn prefix(&self) -> (r: &str)
        ensures
            r@ == self.prefix@,
    {
        self.prefix.as_str()
    }

    fn runner(&self) -> (r: Option<&Runner>)
        ensures
            r == match self.runner {
                Some(x) => Some(&x),
                None => None,
            },
    {
        self.runner.as_ref()
    }
}

impl PrefixLauncher for SteamGame {
    fn run_in_prefix(&self, exe_to_launch: &str, args: Option<Vec<String>>) -> (r: Result<
        LaunchPlan,
        LaunchError,
    >)
        ensures
            match steam_plan(exe_to_launch@, self@, extra_args(args)) {
                Ok(plan) => (r matches Ok(p) && p@ == plan),
                Err(e) => r == Err::<LaunchPlan, LaunchError>(e),
            },
    {
        run_in_prefix(exe_to_launch, self, args)
    }
}

/// Where Steam's configuration stands.
pub fn config_path(game: &SteamGame) -> (r: String)
    ensures
        r@ == joined(game.client_path@, "config/config.vdf"@),
{
    join(game.client_path.as_str(), "config/config.vdf")
}

/// Binds `runner` to `game` in the configuration `content` and gives the new
/// configuration: the first block of the game is taken out, then the new
/// block is put in at the opening of the section. `content` itself is left
/// as it is, and a configuration without the section takes no binding.
pub fn set_runner(game: &SteamGame, runner: &str, content: &str) -> (r: String)
    ensures
        r@ == rebound(content@, game.app_id, runner@),
{
    rebind(content, game.app_id, runner)
}

/// The arguments that a caller adds to a launch: none where it gives none.
pub open spec fn extra_args(args: Option<Vec<String>>) -> Seq<Seq<char>> {
    match args {
        Some(v) => texts(v@),
        None => Seq::empty(),
    }
}

pub const ENV_CLIENT_PATH: &'static str = "STEAM_COMPAT_CLIENT_INSTALL_PATH";

pub const ENV_DATA_PATH: &'static str = "STEAM_COMPAT_DATA_PATH";

pub const ENV_DLL_OVERRIDES: &'static str = "WINEDLLOVERRIDES";

pub const DLL_OVERRIDES: &'static str = "dinput.dll=n,b";

/// The process that runs the program `exe` inside the prefix of `game`: the
/// entry point `run` of the runner's runtime, which is told to start the
/// runner, wait, and run `exe` with the arguments `extra`. Its output is
/// logged, and it must end in success.
pub open spec fn steam_plan(exe: Seq<char>, game: SteamGameView, extra: Seq<Seq<char>>) -> Result<
    LaunchPlanView,
    LaunchError,
> {
    match game.runner {
        None => Err(LaunchError::MissingRunner),
        Some(runner) => match runner.runtime {
            None => Err(LaunchError::MissingRuntime),
            Some(runtime) => match parent_of(game.prefix) {
                None => Err(LaunchError::PrefixHasNoParent),
                Some(data) => Ok(
                    LaunchPlanView {
                        program: joined(runtime.path, "run"@),
                        env: seq![
                            (ENV_CLIENT_PATH@, game.client_path),
                            (ENV_DATA_PATH@, data),
                            (ENV_DLL_OVERRIDES@, DLL_OVERRIDES@),
                        ],
                        args: seq!["--"@, runner.path, "waitforexitandrun"@, exe] + extra,
                        output: Output::Logged,
                        completion: Completion::AwaitedAndChecked,
                    },
                ),
            },
        },
    }
}

/// Adds the texts of `more` to `args`, in their order.
pub fn push_all(args: &mut Vec<String>, more: &Vec<String>)
    ensures
        texts(final(args)@) == texts(old(args)@) + texts(more@),
{
    let ghost before = texts(args@);
    let mut i: usize = 0;
    while i < more.len()
        invariant
            i <= more.len(),
            texts(args@) == before + texts(more@).take(i as int),
        decreases more.len() - i,
    {
        let ghost so_far = texts(args@);
        args.push(more[i].clone());
        assert(texts(args@) =~= so_far.push(more@[i as int]@));
        assert(texts(args@) =~= before + texts(more@).take(i + 1));
        i += 1;
    }
    assert(texts(more@).take(more@.len() as int) =~= texts(more@));
}

/// The process that runs the program `exe_to_launch` inside the prefix of
/// `game`, or why there is none. No process is started where the game lacks
/// a runner, the runner a runtime or the prefix a parent.
pub fn run_in_prefix(exe_to_launch: &str, game: &SteamGame, args: Option<Vec<String>>) -> (r:
    Result<LaunchPlan, LaunchError>)
    ensures
        match steam_plan(exe_to_launch@, game@, extra_args(args)) {
            Ok(plan) => (r matches Ok(p) && p@ == plan),
            Err(e) => r == Err::<LaunchPlan, LaunchError>(e),
        },
{
    let runner = match &game.runner {
        Some(x) => x,
        None => {
            return Err(LaunchError::MissingRunner);
        },
    };
    let runtime = match &runner.runtime {
        Some(x) => x,
        None => {
            return Err(LaunchError::MissingRuntime);
        },
    };
    let program = join(runtime.path.as_str(), "run");
    let data = match parent(game.prefix.as_str()) {
        Some(x) => x,
        None => {
            return Err(LaunchError::PrefixHasNoParent);
        },
    };
    let mut env: Vec<(String, String)> = Vec::new();
    env.push((ENV_CLIENT_PATH.to_owned(), game.client_path.clone()));
    env.push((ENV_DATA_PATH.to_owned(), data));
    env.push((ENV_DLL_OVERRIDES.to_owned(), DLL_OVERRIDES.to_owned()));
    let mut argv: Vec<String> = Vec::new();
    argv.push("--".to_owned());
    argv.push(runner.path.clone());
    argv.push("waitforexitandrun".to_owned());
    argv.push(exe_to_launch.to_owned());
    assert(texts(argv@) =~= seq!["--"@, runner.path@, "waitforexitandrun"@, exe_to_launch@]);
    match &args {
        Some(more) => {
            push_all(&mut argv, more);
        },
        None => {
            assert(texts(argv@) + Seq::<Seq<char>>::empty() =~= texts(argv@));
        },
    }
    let plan = LaunchPlan {
        program,
        env,
        args: argv,
        output: Output::Logged,
        completion: Completion::AwaitedAndChecked,
    };
    assert(plan@.env =~= steam_plan(exe_to_launch@, game@, extra_args(args))->Ok_0.env);
    Ok(plan)
}

/// Judges how a started process ended: a status other than success fails a
/// launch whose plan asks for the status to be checked.
pub fn check_exit(plan: &LaunchPlan, success: bool) -> (r: Result<(), LaunchError>)
    ensures
        r is Err <==> plan.completion == Completion::AwaitedAndChecked && !success,
        r matches Err(e) ==> e == LaunchError::ChildProcessFailed,
{
    match plan.completion {
        Completion::AwaitedAndChecked => if success {
            Ok(())
        } else {
            Err(LaunchError::ChildProcessFailed)
        },
        _ => Ok(()),
    }
}

/// What the path of the prefix of the application `app_id` must hold.
pub open spec fn prefix_marker(app_id: u32) -> Seq<char> {
    "compatdata/"@ + decimal_text(app_id as nat) + "/pfx"@
}

/// What the path of the files of the game `name` must hold.
pub open spec fn common_marker(name: Seq<char>) -> Seq<char> {
    "common/"@ + name
}

/// What is to be done about the directory at `path`, which may be removed
/// only where `path` holds `marker`. `is_directory` tells whether `path`
/// is there and is a directory.
pub open spec fn wipe_decision(path: Seq<char>, marker: Seq<char>, is_directory: bool) -> Result<
    Option<Seq<char>>,
    MaintenanceError,
> {
    if !is_directory {
        Ok(None)
    } else if has_infix(path, marker) {
        Ok(Some(path))
    } else {
        Err(MaintenanceError::UnsafeDeletionTarget)
    }
}

/// What an action removes.
pub open spec fn removed_by(action: WipeAction) -> Option<Seq<char>> {
    match action {
        WipeAction::AlreadyClean => None,
        WipeAction::RemoveTree(path) => Some(path@),
    }
}

/// What is to be done about the directory at `path`, which may be removed
/// only where `path` holds `marker`.
pub fn guarded_wipe(path: &str, marker: &str, is_directory: bool) -> (r: Result<
    WipeAction,
    MaintenanceError,
>)
    ensures
        match wipe_decision(path@, marker@, is_directory) {
            Ok(target) => (r matches Ok(action) && removed_by(action) == target),
            Err(e) => r == Err::<WipeAction, MaintenanceError>(e),
        },
{
    if !is_directory {
        Ok(WipeAction::AlreadyClean)
    } else if contains(path, marker) {
        Ok(WipeAction::RemoveTree(path.to_owned()))
    } else {
        Err(MaintenanceError::UnsafeDeletionTarget)
    }
}

/// What is to be done to wipe the prefix of `game`, where `is_directory`
/// tells whether the prefix is there and is a directory. A prefix that is
/// not there is clean already. One that is there is removed only if its path
/// holds `compatdata/`, the game's identifier and `/pfx`.
pub fn wipe_prefix(game: &SteamGame, is_directory: bool) -> (r: Result<
    WipeAction,
    MaintenanceError,
>)
    ensures
        match wipe_decision(game.prefix@, prefix_marker(game.app_id), is_directory) {
            Ok(target) => (r matches Ok(action) && removed_by(action) == target),
            Err(e) => r == Err::<WipeAction, MaintenanceError>(e),
        },
{
    let mut marker = "compatdata/".to_owned();
    marker.append(decimal(game.app_id).as_str());
    marker.append("/pfx");
    guarded_wipe(game.prefix.as_str(), marker.as_str(), is_directory)
}

/// What is to be done to wipe the files of `game`, where `is_directory`
/// tells whether their directory is there. It is removed only if its path
/// holds `common/` and the game's name.
pub fn wipe_common(game: &SteamGame, is_directory: bool) -> (r: Result<
    WipeAction,
    MaintenanceError,
>)
    ensures
        match wipe_decision(game.path@, common_marker(game.name@), is_directory) {
            Ok(target) => (r matches Ok(action) && removed_by(action) == target),
            Err(e) => r == Err::<WipeAction, MaintenanceError>(e),
        },
{
    let mut marker = "common/".to_owned();
    marker.append(game.name.as_str());
    guarded_wipe(game.path.as_str(), marker.as_str(), is_directory)
}

/// The process that hands `url`, followed by the application's identifier,
/// to the Steam client.
pub open spec fn steam_request(url: Seq<char>, app_id: u32) -> LaunchPlanView {
    LaunchPlanView {
        program: "steam"@,
        env: Seq::empty(),
        args: seq![url + decimal_text(app_id as nat)],
        output: Output::Discarded,
        completion: Completion::Detached,
    }
}

fn request(url: &str, app_id: u32) -> (r: LaunchPlan)
    ensures
        r@ == steam_request(url@, app_id),
{
    let mut target = url.to_owned();
    target.append(decimal(app_id).as_str());
    let mut args: Vec<String> = Vec::new();
    args.push(target);
    let plan = LaunchPlan {
        program: "steam".to_owned(),
        env: Vec::new(),
        args,
        output: Output::Discarded,
        completion: Completion::Detached,
    };
    assert(plan@.args =~= steam_request(url@, app_id).args);
    assert(plan@.env =~= steam_request(url@, app_id).env);
    plan
}

/// The process that asks the Steam client to run `game`.
pub fn launch_game(game: &SteamGame) -> (r: LaunchPlan)
    ensures
        r@ == steam_request("steam://rungameid/"@, game.app_id),
{
    request("steam://rungameid/", game.app_id)
}

/// The process that asks the Steam client to validate the files of `game`.
pub fn validate_game(game: &SteamGame) -> (r: LaunchPlan)
    ensures
        r@ == steam_request("steam://validate/"@, game.app_id),
{
    request("steam://validate/", game.app_id)
}

/// A runner resolved for a game, and whether the choice is to be persisted.
#[derive(Debug, PartialEq, Eq)]
pub struct Selection {
    pub runner: Runner,
    /// Whether the runner was chosen for want of a usable binding, so that
    /// the choice is to be written to the configuration.
    pub persist: bool,
}

/// A game with its runner resolved, and the configuration to write.
#[derive(Debug, PartialEq, Eq)]
pub struct ResolvedGame {
    pub game: SteamGame,
    /// The new text of Steam's configuration, where the runner was chosen
    /// anew and the configuration could be rewritten; it is to be written
    /// as a whole. Where there is none, nothing is to be written.
    pub config: Option<String>,
}

/// Whether a runner of `catalog` has the machine name `id`.
pub open spec fn names_runner(catalog: Seq<Runner>, id: Seq<char>) -> bool {
    exists|i: int| 0 <= i < catalog.len() && (#[trigger] catalog[i]).name@ == id
}

/// The runner at `i` is the first of `catalog` with the machine name `id`.
pub open spec fn is_bound_at(catalog: Seq<Runner>, id: Seq<char>, i: int) -> bool {
    &&& 0 <= i < catalog.len()
    &&& catalog[i].name@ == id
    &&& forall|j: int| 0 <= j < i ==> (#[trigger] catalog[j]).name@ != id
}

/// Whether the binding `bound` can be kept: it names a runner of `catalog`.
pub open spec fn binding_holds(bound: Option<Seq<char>>, catalog: Seq<Runner>) -> bool {
    bound matches Some(id) && names_runner(catalog, id)
}

/// The runner at `i` is the one resolved: the first that the binding names,
/// or, where the binding names none, the one that ranks highest.
pub open spec fn is_resolved(
    bound: Option<Seq<char>>,
    catalog: Seq<Runner>,
    magnitudes: Seq<Option<i64>>,
    i: int,
) -> bool {
    if binding_holds(bound, catalog) {
        is_bound_at(catalog, bound->0, i)
    } else {
        is_highest(catalog, magnitudes, i)
    }
}

/// The first runner of `catalog` with the machine name `id`.
pub fn find_bound(catalog: &[Runner], id: &str) -> (r: Option<usize>)
    ensures
        r is Some <==> names_runner(catalog@, id@),
        r matches Some(i) ==> is_bound_at(catalog@, id@, i as int),
{
    let mut i: usize = 0;
    while i < catalog.len()
        invariant
            i <= catalog.len(),
            forall|j: int| 0 <= j < i ==> (#[trigger] catalog@[j]).name@ != id@,
        decreases catalog.len() - i,
    {
        if same_text(catalog[i].name.as_str(), id) {
            return Some(i);
        }
        i += 1;
    }
    None
}

/// The position in `catalog` of the runner for a game whose persisted binding
/// is `bound`, and whether the choice is to be persisted. The binding is
/// kept where it names a runner of the catalog. Where there is none, or it
/// names no runner of the catalog, the runner that ranks highest is chosen.
/// An empty catalog has no runner, whatever the binding.
pub fn resolve_index(bound: Option<&str>, catalog: &[Runner], magnitudes: &[Option<i64>]) -> (r:
    Result<(usize, bool), BindingError>)
    ensures
        catalog@.len() == 0 ==> r == Err::<(usize, bool), BindingError>(
            BindingError::NoCompatibleRunnerFound,
        ),
        catalog@.len() > 0 ==> (r matches Ok(found) && is_resolved(
            bound_text(bound),
            catalog@,
            magnitudes@,
            found.0 as int,
        ) && found.1 == !binding_holds(bound_text(bound), catalog@)),
{
    if catalog.len() == 0 {
        return Err(BindingError::NoCompatibleRunnerFound);
    }
    match bound {
        Some(id) => match find_bound(catalog, id) {
            Some(i) => {
                return Ok((i, false));
            },
            None => {},
        },
        None => {},
    }
    match highest_index(catalog, magnitudes) {
        Some(i) => Ok((i, true)),
        None => Err(BindingError::NoCompatibleRunnerFound),
    }
}

/// The text of a binding, if there is one.
pub open spec fn bound_text(bound: Option<&str>) -> Option<Seq<char>> {
    match bound {
        Some(id) => Some(id@),
        None => None,
    }
}

/// The runner for a game whose persisted binding is `bound`, and whether the
/// choice is to be persisted.
pub fn resolve(bound: Option<&str>, catalog: &[Runner], magnitudes: &[Option<i64>]) -> (r: Result<
    Selection,
    BindingError,
>)
    ensures
        catalog@.len() == 0 ==> r == Err::<Selection, BindingError>(
            BindingError::NoCompatibleRunnerFound,
        ),
        catalog@.len() > 0 ==> (r matches Ok(sel) && sel.persist == !binding_holds(
            bound_text(bound),
            catalog@,
        ) && exists|i: int|
            is_resolved(bound_text(bound), catalog@, magnitudes@, i) && sel.runner == catalog@[i]),
{
    match resolve_index(bound, catalog, magnitudes) {
        Ok(found) => Ok(Selection { runner: catalog[found.0].clone(), persist: found.1 }),
        Err(e) => Err(e),
    }
}

/// The binding that the configuration gives for `app_id`, where `config` is
/// its text, if it could be read. A configuration that gives none, for
/// whatever reason, counts as one without a binding.
pub open spec fn bound_name(config: Option<Seq<char>>, app_id: u32) -> Option<Seq<char>> {
    match config {
        Some(content) => match binding_of(content, app_id) {
            Ok(name) => Some(name),
            Err(_) => None,
        },
        None => None,
    }
}

/// The configuration that binds `runner` to `app_id`, where there is a
/// configuration to rewrite.
pub open spec fn rewritten(config: Option<Seq<char>>, app_id: u32, runner: Seq<char>) -> Option<
    Seq<char>,
> {
    match config {
        Some(content) => Some(rebound(content, app_id, runner)),
        None => None,
    }
}

/// The text of a configuration, if there is one.
pub open spec fn config_text(config: Option<&str>) -> Option<Seq<char>> {
    match config {
        Some(content) => Some(content@),
        None => None,
    }
}

/// The text of a new configuration, if there is one.
pub open spec fn new_config_text(config: Option<String>) -> Option<Seq<char>> {
    match config {
        Some(content) => Some(content@),
        None => None,
    }
}

/// Where the prefix of the application `app_id` stands in the library at
/// `library_path`.
pub fn prefix_path(library_path: &str, app_id: u32) -> (r: String)
    ensures
        r@ == joined(library_path@, "steamapps/"@ + prefix_marker(app_id)),
{
    let mut leaf = "steamapps/".to_owned();
    leaf.append("compatdata/");
    leaf.append(decimal(app_id).as_str());
    leaf.append("/pfx");
    assert(leaf@ =~= "steamapps/"@ + prefix_marker(app_id));
    join(library_path, leaf.as_str())
}

/// The game `app_id` with its runner resolved. `name` and `path` are the
/// game's name and directory, `library_path` the library that holds it,
/// `client_path` the root of the Steam installation, `config` the text of
/// Steam's configuration, if it could be read, and `catalog` the installed
/// runners with their `magnitudes`.
///
/// The runner that the configuration binds to the game is kept where the
/// catalog holds it. Otherwise the runner that ranks highest is chosen and
/// bound to the game in a new configuration. Where there is no
/// configuration to rewrite, the chosen runner is returned all the same.
pub fn get_game(
    app_id: u32,
    name: &str,
    path: &str,
    library_path: &str,
    client_path: &str,
    config: Option<&str>,
    catalog: &[Runner],
    magnitudes: &[Option<i64>],
) -> (r: Result<ResolvedGame, BindingError>)
    ensures
        catalog@.len() == 0 ==> r == Err::<ResolvedGame, BindingError>(
            BindingError::NoCompatibleRunnerFound,
        ),
        catalog@.len() > 0 ==> (r matches Ok(out) && {
            let bound = bound_name(config_text(config), app_id);
            &&& out.game.app_id == app_id
            &&& out.game.name@ == name@
            &&& out.game.path@ == path@
            &&& out.game.client_path@ == client_path@
            &&& out.game.prefix@ == joined(library_path@, "steamapps/"@ + prefix_marker(app_id))
            &&& exists|i: int|
                is_resolved(bound, catalog@, magnitudes@, i) && out.game.runner == Some(
                    catalog@[i],
                )
            &&& new_config_text(out.config) == if binding_holds(bound, catalog@) {
                None
            } else {
                rewritten(config_text(config), app_id, out.game.runner->0.name@)
            }
        }),
{
    let bound: Option<String> = match config {
        Some(content) => match read_binding(content, app_id) {
            Ok(id) => Some(id),
            Err(_) => None,
        },
        None => None,
    };
    let bound_ref: Option<&str> = match &bound {
        Some(id) => Some(id.as_str()),
        None => None,
    };
    assert(bound_text(bound_ref) == bound_name(config_text(config), app_id));
    let selection = match resolve(bound_ref, catalog, magnitudes) {
        Ok(sel) => sel,
        Err(e) => {
            return Err(e);
        },
    };
    let mut game = SteamGame {
        app_id,
        name: name.to_owned(),
        path: path.to_owned(),
        prefix: prefix_path(library_path, app_id),
        client_path: client_path.to_owned(),
        runner: None,
    };
    let new_config: Option<String> = if selection.persist {
        match config {
            Some(content) => Some(set_runner(&game, selection.runner.name.as_str(), content)),
            None => None,
        }
    } else {
        None
    };
    game.runner = Some(selection.runner);
    Ok(ResolvedGame { game, config: new_config })
}

/// The prefix that `prefix_path` gives for a game in any library is one that
/// may be wiped: its path holds what marks it as the prefix of that game.
pub proof fn lemma_prefix_path_may_be_wiped(library_path: Seq<char>, app_id: u32)
    ensures
        wipe_decision(
            joined(library_path, "steamapps/"@ + prefix_marker(app_id)),
            prefix_marker(app_id),
            true,
        ) == Ok::<Option<Seq<char>>, MaintenanceError>(
            Some(joined(library_path, "steamapps/"@ + prefix_marker(app_id))),
        ),
{
    reveal_strlit("steamapps/");
    let marker = prefix_marker(app_id);
    let leaf = "steamapps/"@ + marker;
    let path = joined(library_path, leaf);
    let at = path.len() - marker.len();
    assert(leaf[0] == 's');
    assert(path.subrange(at, at + marker.len()) =~= marker);
    assert(occurs_at(path, marker, at));
}

/// The directory that a launch hands to the runner as the game's data: the
/// parent of the prefix that `prefix_path` gives is the game's directory
/// under `compatdata`.
pub proof fn lemma_prefix_path_has_data_parent(library_path: Seq<char>, app_id: u32)
    ensures
        parent_of(joined(library_path, "steamapps/"@ + prefix_marker(app_id))) == Some(
            joined(library_path, "steamapps/compatdata/"@ + decimal_text(app_id as nat)),
        ),
{
    reveal_strlit("steamapps/");
    reveal_strlit("steamapps/compatdata/");
    reveal_strlit("compatdata/");
    reveal_strlit("/pfx");
    let number = decimal_text(app_id as nat);
    let leaf = "steamapps/"@ + prefix_marker(app_id);
    let dir = "steamapps/compatdata/"@ + number;
    let path = joined(library_path, leaf);
    let n = path.len() as int;
    assert(number.len() >= 1 && number.last() == digit_char((app_id % 10) as nat));
    assert(leaf =~= dir + "/pfx"@);
    assert(leaf[0] == 's' && dir[0] == 's');
    assert(path =~= joined(library_path, dir) + "/pfx"@);
    assert(path[n - 1] == 'x' && path[n - 2] == 'f' && path[n - 3] == 'p' && path[n - 4] == '/');
    assert(path[n - 5] == number.last());
    let start = body_start(path);
    assert(trimmed_end(path, start, n) == n);
    reveal_with_fuel(component_start, 5);
    assert(component_start(path, start, n) == n - 3);
    assert(trimmed_end(path, start, n - 4) == n - 4);
    assert(path.take(n - 4) =~= joined(library_path, dir));
}

/// A prefix that is no directory is clean already, whatever its path: nothing
/// is removed and nothing refused.
pub proof fn lemma_absent_directory_is_clean(path: Seq<char>, marker: Seq<char>)
    ensures
        wipe_decision(path, marker, false) == Ok::<Option<Seq<char>>, MaintenanceError>(None),
{
}

/// A directory whose path does not hold the marker is never removed.
pub proof fn lemma_unmarked_directory_is_refused(path: Seq<char>, marker: Seq<char>)
    requires
        !has_infix(path, marker),
    ensures
        wipe_decision(path, marker, true) == Err::<Option<Seq<char>>, MaintenanceError>(
            MaintenanceError::UnsafeDeletionTarget,
        ),
{
}

} // verus!
