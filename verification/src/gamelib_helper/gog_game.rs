//! Games that Heroic owns: the runner that a game's sidecar file names, and
//! the process that runs a program inside the game's prefix under Wine.

use crate::gamelib_helper::steam_game::{extra_args, push_all, DLL_OVERRIDES, ENV_DLL_OVERRIDES};
use crate::gamelib_helper::{
    Completion, ConfigError, ConfigField, Game, LaunchError, LaunchPlan, LaunchPlanView, Output,
    PrefixLauncher, Runner, RunnerView,
};
use crate::json::{json_of, member, object_member, parse_json, text_member, Json};
use crate::paths::{join, joined, parent, parent_of};
use crate::text::{decimal, decimal_text, same_text, texts};
use vstd::prelude::*;

verus! {

/// A game that Heroic installed.
#[derive(Debug, PartialEq, Eq)]
pub struct GogGame {
    pub app_id: u32,
    pub name: String,
    /// The directory that holds the game's files.
    pub path: String,
    /// The root of the game's prefix.
    pub prefix: String,
    pub runner: Option<Runner>,
}

/// What a Heroic game holds, as plain text.
pub struct GogGameView {
    pub app_id: u32,
    pub name: Seq<char>,
    pub path: Seq<char>,
    pub prefix: Seq<char>,
    pub runner: Option<RunnerView>,
}

impl View for GogGame {
    type V = GogGameView;

    open spec fn view(&self) -> GogGameView {
        GogGameView {
            app_id: self.app_id,
            name: self.name@,
            path: self.path@,
            prefix: self.prefix@,
            runner: match self.runner {
                Some(r) => Some(r@),
                None => None,
            },
        }
    }
}

impl Clone for GogGame {
    fn clone(&self) -> (r: Self)
        ensures
            r == *self,
    {
        let runner = match &self.runner {
            Some(x) => Some(x.clone()),
            None => None,
        };
        GogGame {
            app_id: self.app_id,
            name: self.name.clone(),
            path: self.path.clone(),
            prefix: self.prefix.clone(),
            runner,
        }
    }
}

impl Game for GogGame {
    fn app_id(&self) -> (r: u32)
        ensures
            r == self.app_id,
    {
        self.app_id
    }

    fn name(&self) -> (r: &str)
        ensures
            r@ == self.name@,
    {
        self.name.as_str()
    }

    fn path(&self) -> (r: &str)
        ensures
            r@ == self.path@,
    {
        self.path.as_str()
    }

    fn prefix(&self) -> (r: &str)
        ensures
            r@ == self.prefix@,
    {
        self.prefix.as_str()
    }

    fn runner(&self) -> (r: Option<&Runner>)
        ensures
            r == match self.runner {
                Some(x) => Some(&x),
                None => None,
            },
    {
        self.runner.as_ref()
    }
}

impl PrefixLauncher for GogGame {
    fn run_in_prefix(&self, exe_to_launch: &str, args: Option<Vec<String>>) -> (r: Result<
        LaunchPlan,
        LaunchError,
    >)
        ensures
            match wine_plan(exe_to_launch@, self@, extra_args(args)) {
                Ok(plan) => (r matches Ok(p) && p@ == plan),
                Err(e) => r == Err::<LaunchPlan, LaunchError>(e),
            },
    {
        run_in_prefix(exe_to_launch, self, args)
    }
}

pub const ENV_WINE_PREFIX: &'static str = "WINEPREFIX";

/// The kind of runner whose program is not the one that the sidecar names.
pub const PROTON_KIND: &'static str = "proton";

/// What a sidecar binds to a game: the prefix and the runner's kind, label
/// and program.
pub struct WineBinding {
    pub prefix: Seq<char>,
    pub kind: Seq<char>,
    pub label: Seq<char>,
    pub bin: Seq<char>,
}

/// What the sidecar document `doc` binds to the application `app_id`. The
/// document is an object that holds, under the identifier, an object with
/// the text `winePrefix` and the object `wineVersion`, which holds the texts
/// `type`, `name` and `bin`. The first of these that is absent, or of
/// another shape, is the one that the error names.
pub open spec fn sidecar_binding(doc: Json, app_id: u32) -> Result<WineBinding, ConfigError> {
    match member(doc, decimal_text(app_id as nat)) {
        None => Err(ConfigError::NotFound),
        Some(entry) => match text_member(entry, "winePrefix"@) {
            None => Err(ConfigError::MalformedStructure(ConfigField::WinePrefix)),
            Some(prefix) => match object_member(entry, "wineVersion"@) {
                None => Err(ConfigError::MalformedStructure(ConfigField::WineVersion)),
                Some(version) => match text_member(version, "type"@) {
                    None => Err(ConfigError::MalformedStructure(ConfigField::Type)),
                    Some(kind) => match text_member(version, "name"@) {
                        None => Err(ConfigError::MalformedStructure(ConfigField::Name)),
                        Some(label) => match text_member(version, "bin"@) {
                            None => Err(ConfigError::MalformedStructure(ConfigField::Bin)),
                            Some(bin) => Ok(WineBinding { prefix, kind, label, bin }),
                        },
                    },
                },
            },
        },
    }
}

/// The program to start for a runner of kind `kind` whose sidecar names the
/// program `bin`. For a runner of kind `proton` it is `files/bin/wine` in
/// the directory that holds `bin`; there is none where `bin` has no parent.
pub open spec fn effective_program(kind: Seq<char>, bin: Seq<char>) -> Option<Seq<char>> {
    if kind == PROTON_KIND@ {
        match parent_of(bin) {
            Some(dir) => Some(joined(dir, "files/bin/wine"@)),
            None => None,
        }
    } else {
        Some(bin)
    }
}

/// The game that the sidecar document `doc` describes.
pub open spec fn game_in(doc: Json, app_id: u32, title: Seq<char>, game_dir: Option<Seq<char>>)
    -> Result<GogGameView, ConfigError> {
    match sidecar_binding(doc, app_id) {
        Err(e) => Err(e),
        Ok(binding) => match effective_program(binding.kind, binding.bin) {
            None => Err(ConfigError::MalformedStructure(ConfigField::Bin)),
            Some(program) => match game_dir {
                None => Err(ConfigError::MalformedStructure(ConfigField::GamePath)),
                Some(dir) => Ok(
                    GogGameView {
                        app_id,
                        name: title,
                        path: dir,
                        prefix: binding.prefix,
                        runner: Some(
                            RunnerView {
                                name: binding.kind,
                                pretty_name: binding.label,
                                path: program,
                                runtime: None,
                            },
                        ),
                    },
                ),
            },
        },
    }
}

/// The game that the sidecar `sidecar` describes.
pub open spec fn game_of(
    sidecar: Seq<char>,
    app_id: u32,
    title: Seq<char>,
    game_dir: Option<Seq<char>>,
) -> Result<GogGameView, ConfigError> {
    match json_of(sidecar) {
        None => Err(ConfigError::MalformedStructure(ConfigField::Document)),
        Some(doc) => game_in(doc, app_id, title, game_dir),
    }
}

/// The text of a directory, if there is one.
pub open spec fn dir_text(dir: Option<&str>) -> Option<Seq<char>> {
    match dir {
        Some(d) => Some(d@),
        None => None,
    }
}

/// The program to start for a runner of kind `kind` whose sidecar names the
/// program `bin`.
pub fn program_for(kind: &str, bin: &str) -> (r: Option<String>)
    ensures
        r is Some <==> effective_program(kind@, bin@) is Some,
        r matches Some(p) ==> Some(p@) == effective_program(kind@, bin@),
{
    if same_text(kind, PROTON_KIND) {
        match parent(bin) {
            Some(dir) => Some(join(dir.as_str(), "files/bin/wine")),
            None => None,
        }
    } else {
        Some(bin.to_owned())
    }
}

/// The game `app_id` that the sidecar document `doc` describes, where `title`
/// is the game's title and `game_dir` the directory of its files, if the
/// launcher knows one.
pub fn game_from_document(doc: &Json, app_id: u32, title: &str, game_dir: Option<&str>) -> (r:
    Result<GogGame, ConfigError>)
    ensures
        match game_in(*doc, app_id, title@, dir_text(game_dir)) {
            Ok(view) => (r matches Ok(game) && game@ == view),
            Err(e) => r == Err::<GogGame, ConfigError>(e),
        },
{
    let key = decimal(app_id);
    let entry = match doc.get(key.as_str()) {
        Some(v) => v,
        None => {
            return Err(ConfigError::NotFound);
        },
    };
    let prefix = match entry.get_text("winePrefix") {
        Some(t) => t,
        None => {
            return Err(ConfigError::MalformedStructure(ConfigField::WinePrefix));
        },
    };
    let version = match entry.get_object("wineVersion") {
        Some(v) => v,
        None => {
            return Err(ConfigError::MalformedStructure(ConfigField::WineVersion));
        },
    };
    let kind = match version.get_text("type") {
        Some(t) => t,
        None => {
            return Err(ConfigError::MalformedStructure(ConfigField::Type));
        },
    };
    let label = match version.get_text("name") {
        Some(t) => t,
        None => {
            return Err(ConfigError::MalformedStructure(ConfigField::Name));
        },
    };
    let bin = match version.get_text("bin") {
        Some(t) => t,
        None => {
            return Err(ConfigError::MalformedStructure(ConfigField::Bin));
        },
    };
    let program = match program_for(kind, bin) {
        Some(p) => p,
        None => {
            return Err(ConfigError::MalformedStructure(ConfigField::Bin));
        },
    };
    let dir = match game_dir {
        Some(d) => d,
        None => {
            return Err(ConfigError::MalformedStructure(ConfigField::GamePath));
        },
    };
    Ok(
        GogGame {
            app_id,
            name: title.to_owned(),
            path: dir.to_owned(),
            prefix: prefix.to_owned(),
            runner: Some(
                Runner {
                    name: kind.to_owned(),
                    pretty_name: label.to_owned(),
                    path: program,
                    runtime: None,
                },
            ),
        },
    )
}

/// The game `app_id` that the text `sidecar` of its sidecar file describes.
pub fn get_game(app_id: u32, title: &str, game_dir: Option<&str>, sidecar: &str) -> (r: Result<
    GogGame,
    ConfigError,
>)
    ensures
        match game_of(sidecar@, app_id, title@, dir_text(game_dir)) {
            Ok(view) => (r matches Ok(game) && game@ == view),
            Err(e) => r == Err::<GogGame, ConfigError>(e),
        },
{
    match parse_json(sidecar) {
        Ok(doc) => game_from_document(&doc, app_id, title, game_dir),
        Err(_) => Err(ConfigError::MalformedStructure(ConfigField::Document)),
    }
}

/// The process that runs the program `exe` inside the prefix of `game`: the
/// runner itself, with `exe` and the arguments `extra`. Its output is
/// discarded and its status not judged.
pub open spec fn wine_plan(exe: Seq<char>, game: GogGameView, extra: Seq<Seq<char>>) -> Result<
    LaunchPlanView,
    LaunchError,
> {
    match game.runner {
        None => Err(LaunchError::MissingRunner),
        Some(runner) => Ok(
            LaunchPlanView {
                program: runner.path,
                env: seq![(ENV_WINE_PREFIX@, game.prefix), (ENV_DLL_OVERRIDES@, DLL_OVERRIDES@)],
                args: seq![exe] + extra,
                output: Output::Discarded,
                completion: Completion::Awaited,
            },
        ),
    }
}

/// The process that runs the program `exe_to_launch` inside the prefix of
/// `game`, or why there is none.
pub fn run_in_prefix(exe_to_launch: &str, game: &GogGame, args: Option<Vec<String>>) -> (r: Result<
    LaunchPlan,
    LaunchError,
>)
    ensures
        match wine_plan(exe_to_launch@, game@, extra_args(args)) {
            Ok(plan) => (r matches Ok(p) && p@ == plan),
            Err(e) => r == Err::<LaunchPlan, LaunchError>(e),
        },
{
    let runner = match &game.runner {
        Some(x) => x,
        None => {
            return Err(LaunchError::MissingRunner);
        },
    };
    let mut env: Vec<(String, String)> = Vec::new();
    env.push((ENV_WINE_PREFIX.to_owned(), game.prefix.clone()));
    env.push((ENV_DLL_OVERRIDES.to_owned(), DLL_OVERRIDES.to_owned()));
    let mut argv: Vec<String> = Vec::new();
    argv.push(exe_to_launch.to_owned());
    assert(texts(argv@) =~= seq![exe_to_launch@]);
    match &args {
        Some(more) => {
            push_all(&mut argv, more);
        },
        None => {
            assert(texts(argv@) + Seq::<Seq<char>>::empty() =~= texts(argv@));
        },
    }
    let plan = LaunchPlan {
        program: runner.path.clone(),
        env,
        args: argv,
        output: Output::Discarded,
        completion: Completion::Awaited,
    };
    assert(plan@.env =~= wine_plan(exe_to_launch@, game@, extra_args(args))->Ok_0.env);
    Ok(plan)
}

/// Heroic's configuration directory under the user's configuration home,
/// which is `config_home`, or `.config` in `home` where none is set.
pub open spec fn heroic_primary(home: Seq<char>, config_home: Option<Seq<char>>) -> Seq<char> {
    joined(
        match config_home {
            Some(dir) => dir,
            None => joined(home, ".config"@),
        },
        "heroic"@,
    )
}

/// Heroic's configuration directory where Heroic is installed as a Flatpak.
pub open spec fn heroic_fallback(home: Seq<char>) -> Seq<char> {
    joined(home, ".var/app/com.heroicgameslauncher.hgl/config/heroic"@)
}

/// Heroic's configuration directory under the user's configuration home.
pub fn heroic_primary_path(home: &str, config_home: Option<&str>) -> (r: String)
    ensures
        r@ == heroic_primary(home@, dir_text(config_home)),
{
    match config_home {
        Some(dir) => join(dir, "heroic"),
        None => {
            let base = join(home, ".config");
            join(base.as_str(), "heroic")
        },
    }
}

/// Heroic's configuration directory: the one under the user's configuration
/// home where `primary_is_dir` tells that it is a directory, else the one
/// of the Flatpak.
pub fn get_heroic_config_path(home: &str, config_home: Option<&str>, primary_is_dir: bool) -> (r:
    String)
    ensures
        r@ == if primary_is_dir {
            heroic_primary(home@, dir_text(config_home))
        } else {
            heroic_fallback(home@)
        },
{
    if primary_is_dir {
        heroic_primary_path(home, config_home)
    } else {
        join(home, ".var/app/com.heroicgameslauncher.hgl/config/heroic")
    }
}

/// Where the sidecar of the application `app_id` stands in Heroic's
/// configuration directory `config_dir`.
pub fn sidecar_path(config_dir: &str, app_id: u32) -> (r: String)
    ensures
        r@ == joined(joined(config_dir@, "GamesConfig"@), decimal_text(app_id as nat) + ".json"@),
{
    let dir = join(config_dir, "GamesConfig");
    let mut leaf = decimal(app_id);
    leaf.append(".json");
    join(dir.as_str(), leaf.as_str())
}

/// A sidecar that holds the application but no text `winePrefix` for it is
/// refused with an error that names that field, whatever else it holds.
pub proof fn lemma_missing_wine_prefix_is_named(
    doc: Json,
    app_id: u32,
    title: Seq<char>,
    game_dir: Option<Seq<char>>,
)
    requires
        member(doc, decimal_text(app_id as nat)) matches Some(entry) && text_member(
            entry,
            "winePrefix"@,
        ) is None,
    ensures
        game_in(doc, app_id, title, game_dir) == Err::<GogGameView, ConfigError>(
            ConfigError::MalformedStructure(ConfigField::WinePrefix),
        ),
{
}

} // verus!
