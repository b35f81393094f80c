//! Games, the runners that execute them and the runtimes that runners need.

use vstd::prelude::*;

pub mod binding_laws;
pub mod gog_game;
pub mod installer;
pub mod steam_config;
pub mod steam_game;
pub mod steam_proton;

verus! {

/// A container of shared libraries that some runners cannot do without.
#[derive(Debug, PartialEq, Eq)]
pub struct Runtime {
    pub name: String,
    pub pretty_name: String,
    pub path: String,
}

/// A build of a compatibility layer that can execute Windows programs.
#[derive(Debug, PartialEq, Eq)]
pub struct Runner {
    /// The machine name, by which a persisted binding finds the runner again.
    pub name: String,
    /// The label a person reads; versions are ordered by it.
    pub pretty_name: String,
    /// The program to start.
    pub path: String,
    pub runtime: Option<Runtime>,
}

/// The part of a configuration that an error speaks of.
#[derive(Clone, Copy, Debug, PartialEq, Eq)]
pub enum ConfigField {
    /// The document as a whole.
    Document,
    WinePrefix,
    WineVersion,
    Type,
    Name,
    Bin,
    /// The directory that holds the game's files.
    GamePath,
}

/// Why a configuration store gave no binding or took none.
#[derive(Clone, Copy, Debug, PartialEq, Eq)]
pub enum ConfigError {
    /// The store holds no binding for the application.
    NotFound,
    /// The store is there, but the named part of it is absent or of the
    /// wrong shape.
    MalformedStructure(ConfigField),
    /// The store could not be read or written.
    IoFailure,
}

/// Why no runner was resolved.
#[derive(Clone, Copy, Debug, PartialEq, Eq)]
pub enum BindingError {
    NoCompatibleRunnerFound,
}

/// Why a program was not run to a good end inside a prefix.
#[derive(Clone, Copy, Debug, PartialEq, Eq)]
pub enum LaunchError {
    /// The game has no runner.
    MissingRunner,
    /// The game's runner has no runtime.
    MissingRuntime,
    /// The prefix has no parent directory.
    PrefixHasNoParent,
    /// The process could not be started or waited for.
    IoFailure,
    /// The process ended with a status other than success.
    ChildProcessFailed,
}

/// Why a directory was not removed.
#[derive(Clone, Copy, Debug, PartialEq, Eq)]
pub enum MaintenanceError {
    /// The path does not hold what marks it as the directory of this game.
    UnsafeDeletionTarget,
    /// The directory could not be removed, or not all of it.
    IoFailure,
}

/// What becomes of what a started process writes.
#[derive(Clone, Copy, Debug, PartialEq, Eq)]
pub enum Output {
    /// Both streams are read to their end, each line logged as it arrives.
    Logged,
    Discarded,
}

/// How long the caller stays with a started process.
#[derive(Clone, Copy, Debug, PartialEq, Eq)]
pub enum Completion {
    /// The process is started and left alone.
    Detached,
    /// The caller waits for the process to end; its status is not judged.
    Awaited,
    /// The caller waits for the process to end; a status other than success
    /// fails the launch.
    AwaitedAndChecked,
}

/// A process to start: the program, what is added to its environment, its
/// arguments, and how it is attended.
#[derive(Debug, PartialEq, Eq)]
pub struct LaunchPlan {
    pub program: String,
    pub env: Vec<(String, String)>,
    pub args: Vec<String>,
    pub output: Output,
    pub completion: Completion,
}

/// What a launch plan holds, as plain text.
pub struct LaunchPlanView {
    pub program: Seq<char>,
    pub env: Seq<(Seq<char>, Seq<char>)>,
    pub args: Seq<Seq<char>>,
    pub output: Output,
    pub completion: Completion,
}

/// The pairs of texts that `v` holds.
pub open spec fn text_pairs(v: Seq<(String, String)>) -> Seq<(Seq<char>, Seq<char>)> {
    Seq::new(v.len(), |i: int| (v[i].0@, v[i].1@))
}

impl View for LaunchPlan {
    type V = LaunchPlanView;

    open spec fn view(&self) -> LaunchPlanView {
        LaunchPlanView {
            program: self.program@,
            env: text_pairs(self.env@),
            args: crate::text::texts(self.args@),
            output: self.output,
            completion: self.completion,
        }
    }
}

/// What is to be done about a directory that was to be wiped.
#[derive(Debug, PartialEq, Eq)]
pub enum WipeAction {
    /// There is no such directory: nothing is removed.
    AlreadyClean,
    /// The directory at this path is removed with all that it holds.
    RemoveTree(String),
}

/// An installed game, whichever launcher owns it.
pub trait Game {
    fn app_id(&self) -> u32;

    fn name(&self) -> &str;

    fn path(&self) -> &str;

    fn prefix(&self) -> &str;

    fn runner(&self) -> Option<&Runner>;
}

/// A game inside whose prefix a program can be run.
pub trait PrefixLauncher {
    /// The process that runs `exe_to_launch` inside the game's prefix.
    fn run_in_prefix(&self, exe_to_launch: &str, args: Option<Vec<String>>) -> Result<
        LaunchPlan,
        LaunchError,
    >;
}

/// What a runtime holds, as plain text.
pub struct RuntimeView {
    pub name: Seq<char>,
    pub pretty_name: Seq<char>,
    pub path: Seq<char>,
}

/// What a runner holds, as plain text.
pub struct RunnerView {
    pub name: Seq<char>,
    pub pretty_name: Seq<char>,
    pub path: Seq<char>,
    pub runtime: Option<RuntimeView>,
}

impl View for Runtime {
    type V = RuntimeView;

    open spec fn view(&self) -> RuntimeView {
        RuntimeView { name: self.name@, pretty_name: self.pretty_name@, path: self.path@ }
    }
}

impl View for Runner {
    type V = RunnerView;

    open spec fn view(&self) -> RunnerView {
        RunnerView {
            name: self.name@,
            pretty_name: self.pretty_name@,
            path: self.path@,
            runtime: match self.runtime {
                Some(rt) => Some(rt@),
                None => None,
            },
        }
    }
}

/// The views of the runners that `v` holds.
pub open spec fn runner_views(v: Seq<Runner>) -> Seq<RunnerView> {
    Seq::new(v.len(), |i: int| v[i]@)
}

impl Clone for Runtime {
    fn clone(&self) -> (r: Self)
        ensures
            r == *self,
    {
        Runtime {
            name: self.name.clone(),
            pretty_name: self.pretty_name.clone(),
            path: self.path.clone(),
        }
    }
}

impl Clone for Runner {
    fn clone(&self) -> (r: Self)
        ensures
            r == *self,
    {
        let runtime = match &self.runtime {
            Some(rt) => Some(rt.clone()),
            None => None,
        };
        Runner {
            name: self.name.clone(),
            pretty_name: self.pretty_name.clone(),
            path: self.path.clone(),
            runtime,
        }
    }
}

impl ConfigField {
    /// The name by which messages call the field.
    pub open spec fn name_of(self) -> Seq<char> {
        match self {
            ConfigField::Document => "document"@,
            ConfigField::WinePrefix => "winePrefix"@,
            ConfigField::WineVersion => "wineVersion"@,
            ConfigField::Type => "wineVersion type"@,
            ConfigField::Name => "name"@,
            ConfigField::Bin => "wineVersion bin"@,
            ConfigField::GamePath => "game directory"@,
        }
    }

    /// The name by which messages call the field.
    pub fn name(&self) -> (r: &'static str)
        ensures
            r@ == self.name_of(),
    {
        match self {
            ConfigField::Document => "document",
            ConfigField::WinePrefix => "winePrefix",
            ConfigField::WineVersion => "wineVersion",
            ConfigField::Type => "wineVersion type",
            ConfigField::Name => "name",
            ConfigField::Bin => "wineVersion bin",
            ConfigField::GamePath => "game directory",
        }
    }
}

impl ConfigError {
    /// The error in one line.
    pub open spec fn message_of(self) -> Seq<char> {
        match self {
            ConfigError::NotFound => "no binding found for the application"@,
            ConfigError::MalformedStructure(field) => "configuration is malformed: missing "@
                + field.name_of(),
            ConfigError::IoFailure => "configuration could not be read or written"@,
        }
    }

    /// The error in one line.
    pub fn message(&self) -> (r: String)
        ensures
            r@ == self.message_of(),
    {
        match self {
            ConfigError::NotFound => "no binding found for the application".to_owned(),
            ConfigError::MalformedStructure(field) => {
                let mut s = "configuration is malformed: missing ".to_owned();
                s.append(field.name());
                s
            },
            ConfigError::IoFailure => "configuration could not be read or written".to_owned(),
        }
    }
}

impl BindingError {
    /// The error in one line.
    pub fn message(&self) -> (r: String)
        ensures
            r@ == "no compatible runner found"@,
    {
        "no compatible runner found".to_owned()
    }
}

impl LaunchError {
    /// The error in one line.
    pub open spec fn message_of(self) -> Seq<char> {
        match self {
            LaunchError::MissingRunner => "the game has no runner"@,
            LaunchError::MissingRuntime => "the runner has no runtime"@,
            LaunchError::PrefixHasNoParent => "the prefix has no parent directory"@,
            LaunchError::IoFailure => "the process could not be started or waited for"@,
            LaunchError::ChildProcessFailed => "the process exited with an error"@,
        }
    }

    /// The error in one line.
    pub fn message(&self) -> (r: String)
        ensures
            r@ == self.message_of(),
    {
        match self {
            LaunchError::MissingRunner => "the game has no runner".to_owned(),
            LaunchError::MissingRuntime => "the runner has no runtime".to_owned(),
            LaunchError::PrefixHasNoParent => "the prefix has no parent directory".to_owned(),
            LaunchError::IoFailure => "the process could not be started or waited for".to_owned(),
            LaunchError::ChildProcessFailed => "the process exited with an error".to_owned(),
        }
    }
}

impl MaintenanceError {
    /// The error in one line.
    pub open spec fn message_of(self) -> Seq<char> {
        match self {
            MaintenanceError::UnsafeDeletionTarget =>
                "the path is not a directory of this game and is not removed"@,
            MaintenanceError::IoFailure => "the directory could not be removed"@,
        }
    }

    /// The error in one line.
    pub fn message(&self) -> (r: String)
        ensures
            r@ == self.message_of(),
    {
        match self {
            MaintenanceError::UnsafeDeletionTarget =>
                "the path is not a directory of this game and is not removed".to_owned(),
            MaintenanceError::IoFailure => "the directory could not be removed".to_owned(),
        }
    }
}

} // verus!
