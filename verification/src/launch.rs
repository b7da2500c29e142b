//! Launching: what running a task body in its environment consists of.
//!
//! A launch is a short course of actions that the caller carries out one by
//! one: write a file, run a program and wait for it, remove the file. After
//! each action the caller reports what became of it, and the launch says what
//! comes next. Nothing here touches the file system or starts a process.
//!
//! A script launch (the shell and the scripting runtimes) ends at the first
//! failure and then leaves its temporary script where it is: the script is
//! removed only after the runtime has run. A container launch removes the
//! build descriptor once it is written, whatever comes of building and running.

use crate::diagnostic::{resolution, resolve, Diagnostic, LanguageError};
use crate::directive::{similarity_scores, Family, Runtime};
use crate::text::{
    append_decimal, decimal, join_lines, joined, lemma_decimal_spells_its_number, texts,
};
use vstd::prelude::*;

verus! {

/// The shell that runs a script where the environment names none.
pub open spec fn default_shell() -> Seq<char> {
    "/usr/bin/sh"@
}

/// The path of the temporary script made at the time `stamp`.
pub open spec fn temp_path(stamp: u128) -> Seq<char> {
    "/tmp/runit_"@ + decimal(stamp as nat)
}

/// The path of the build descriptor, in the working directory.
pub open spec fn descriptor_path() -> Seq<char> {
    "./.Dockerfile"@
}

/// The program through which the container tool is called.
pub open spec fn container_program() -> Seq<char> {
    "sudo"@
}

/// The arguments of the build step: build the image `runit-temp` from the
/// descriptor, with the working directory as context.
pub open spec fn build_args() -> Seq<Seq<char>> {
    seq!["docker"@, "build"@, "-t"@, "runit-temp"@, "-f"@, descriptor_path(), "."@]
}

/// The arguments of the run step: run the image `runit-temp` in a container
/// that is removed when it exits.
pub open spec fn run_args() -> Seq<Seq<char>> {
    seq!["docker"@, "run"@, "--rm"@, "runit-temp"@]
}

/// The warning given before a container launch without elevated privileges.
pub open spec fn privilege_warning() -> Seq<char> {
    "You must be root to run docker"@
}

/// The mode of an executable script: read and run for all, write for the owner.
pub const EXECUTABLE_MODE: u32 = 0o755;

/// The executable name of a scripting runtime.
pub open spec fn runtime_program(runtime: Runtime) -> Seq<char> {
    match runtime {
        Runtime::Python => "python"@,
        Runtime::Ruby => "ruby"@,
    }
}

/// The two ways to launch.
#[derive(Clone, Copy, Debug, PartialEq, Eq, Structural)]
pub enum Kind {
    /// Write a temporary script and hand it to a runtime.
    Script,
    /// Write a build descriptor, build an image from it and run the image.
    Container,
}

/// Where a launch stands: the action that is due.
#[derive(Clone, Copy, Debug, PartialEq, Eq, Structural)]
pub enum Stage {
    /// The warning about missing privileges.
    Warn,
    /// Writing the file.
    Write,
    /// Making the script executable.
    Permit,
    /// Building the image.
    Build,
    /// Running the script, or the image.
    Run,
    /// Removing the file.
    Remove,
    /// Nothing: the launch has ended.
    Done,
}

/// How a launch fails.
#[derive(Clone, Copy, Debug, PartialEq, Eq, Structural)]
pub enum LaunchError {
    /// A file could not be written, made executable or removed.
    FilesystemFailure,
    /// A program could not be started or waited for.
    SubprocessFailure,
}

/// What became of an action.
#[derive(Clone, Copy, Debug, PartialEq, Eq, Structural)]
pub enum Outcome {
    /// It was carried out; a program ran and exited with success.
    Done,
    /// A program ran and exited without success. Of an action that runs no
    /// program it says the same as `Failed`.
    Unsuccessful,
    /// It could not be carried out; a program could not be started or waited for.
    Failed,
}

/// What the caller is to do next.
#[derive(Debug, PartialEq, Eq)]
pub enum Action {
    /// Print the warning, and go on whatever comes of it.
    Warn(String),
    /// Write `text` to the file `path`, replacing what it holds.
    Write { path: String, text: String },
    /// Give the file `path` the mode `mode`.
    MakeExecutable { path: String, mode: u32 },
    /// Start `program` with the arguments `args`, and wait until it exits.
    Run { program: String, args: Vec<String> },
    /// Remove the file `path`.
    Remove { path: String },
    /// Nothing: the launch has ended, in this way.
    Finish(Result<(), LaunchError>),
}

/// An action as plain values.
pub enum ActionModel {
    Warn(Seq<char>),
    Write { path: Seq<char>, text: Seq<char> },
    MakeExecutable { path: Seq<char>, mode: u32 },
    Run { program: Seq<char>, args: Seq<Seq<char>> },
    Remove { path: Seq<char> },
    Finish(Result<(), LaunchError>),
}

impl View for Action {
    type V = ActionModel;

    open spec fn view(&self) -> ActionModel {
        match self {
            Action::Warn(message) => ActionModel::Warn(message@),
            Action::Write { path, text } => ActionModel::Write { path: path@, text: text@ },
            Action::MakeExecutable { path, mode } => ActionModel::MakeExecutable {
                path: path@,
                mode: *mode,
            },
            Action::Run { program, args } => ActionModel::Run {
                program: program@,
                args: texts(args@),
            },
            Action::Remove { path } => ActionModel::Remove { path: path@ },
            Action::Finish(end) => ActionModel::Finish(*end),
        }
    }
}

/// What the host tells a launch.
#[derive(Debug, PartialEq, Eq)]
pub struct Host {
    /// The shell that the environment names, if it names one.
    pub shell: Option<String>,
    /// The time, in nanoseconds since the epoch.
    pub stamp: u128,
    /// Whether the process has elevated privileges.
    pub privileged: bool,
}

/// What the host tells, as plain values.
pub struct HostModel {
    pub shell: Option<Seq<char>>,
    pub stamp: u128,
    pub privileged: bool,
}

impl View for Host {
    type V = HostModel;

    open spec fn view(&self) -> HostModel {
        HostModel {
            shell: match self.shell {
                Some(shell) => Some(shell@),
                None => None,
            },
            stamp: self.stamp,
            privileged: self.privileged,
        }
    }
}

/// A launch under way.
#[derive(Debug, PartialEq, Eq)]
pub struct Launch {
    kind: Kind,
    path: String,
    text: String,
    program: String,
    stage: Stage,
    failure: Option<LaunchError>,
}

/// A launch as plain values.
pub struct LaunchModel {
    /// The way it launches.
    pub kind: Kind,
    /// The file it writes: the temporary script, or the build descriptor.
    pub path: Seq<char>,
    /// What it writes to the file.
    pub text: Seq<char>,
    /// The runtime that is handed the script; the program through which the
    /// container tool is called.
    pub program: Seq<char>,
    /// Where it stands.
    pub stage: Stage,
    /// The first failure that it has met.
    pub failure: Option<LaunchError>,
}

impl LaunchModel {
    /// The launch at another stage.
    pub open spec fn at(self, stage: Stage) -> LaunchModel {
        LaunchModel { stage, ..self }
    }

    /// The launch after a failure. The first failure is the one that counts.
    pub open spec fn failed(self, failure: LaunchError) -> LaunchModel {
        if self.failure is None {
            LaunchModel { failure: Some(failure), ..self }
        } else {
            self
        }
    }

    /// How the launch ends if nothing more happens.
    pub open spec fn end(self) -> Result<(), LaunchError> {
        match self.failure {
            Some(failure) => Err(failure),
            None => Ok(()),
        }
    }

    /// Whether the launch stands where a launch of its kind can stand: a
    /// script is never built and never warned about, a descriptor is never
    /// made executable, and before anything is run nothing has failed.
    pub open spec fn well_formed(self) -> bool {
        &&& match self.kind {
            Kind::Script => !(self.stage is Warn) && !(self.stage is Build),
            Kind::Container => !(self.stage is Permit),
        }
        &&& self.failure is Some ==> self.stage is Remove || self.stage is Done
    }

    /// The action that is due.
    pub open spec fn action(self) -> ActionModel {
        match self.stage {
            Stage::Warn => ActionModel::Warn(privilege_warning()),
            Stage::Write => ActionModel::Write { path: self.path, text: self.text },
            Stage::Permit => ActionModel::MakeExecutable { path: self.path, mode: EXECUTABLE_MODE },
            Stage::Build => ActionModel::Run { program: self.program, args: build_args() },
            Stage::Run => match self.kind {
                Kind::Script => ActionModel::Run { program: self.program, args: seq![self.path] },
                Kind::Container => ActionModel::Run { program: self.program, args: run_args() },
            },
            Stage::Remove => ActionModel::Remove { path: self.path },
            Stage::Done => ActionModel::Finish(self.end()),
        }
    }

    /// The launch after the action that was due has had the outcome `outcome`.
    pub open spec fn after(self, outcome: Outcome) -> LaunchModel {
        match self.stage {
            Stage::Warn => self.at(Stage::Write),
            Stage::Write => if outcome is Done {
                match self.kind {
                    Kind::Script => self.at(Stage::Permit),
                    Kind::Container => self.at(Stage::Build),
                }
            } else {
                self.failed(LaunchError::FilesystemFailure).at(Stage::Done)
            },
            Stage::Permit => if outcome is Done {
                self.at(Stage::Run)
            } else {
                self.failed(LaunchError::FilesystemFailure).at(Stage::Done)
            },
            Stage::Build => match outcome {
                Outcome::Done => self.at(Stage::Run),
                Outcome::Unsuccessful => self.at(Stage::Remove),
                Outcome::Failed => self.failed(LaunchError::SubprocessFailure).at(Stage::Remove),
            },
            Stage::Run => if outcome is Failed {
                match self.kind {
                    Kind::Script => self.failed(LaunchError::SubprocessFailure).at(Stage::Done),
                    Kind::Container => self.failed(LaunchError::SubprocessFailure).at(
                        Stage::Remove,
                    ),
                }
            } else {
                self.at(Stage::Remove)
            },
            Stage::Remove => if outcome is Done {
                self.at(Stage::Done)
            } else {
                self.failed(LaunchError::FilesystemFailure).at(Stage::Done)
            },
            Stage::Done => self,
        }
    }
}

/// The launch of `body` as a script that `program` runs, made at the time
/// `stamp`: the lines, joined by line feeds, go to a temporary script named
/// after the time. It starts with the writing.
pub open spec fn script_launch(body: Seq<Seq<char>>, program: Seq<char>, stamp: u128)
    -> LaunchModel {
    LaunchModel {
        kind: Kind::Script,
        path: temp_path(stamp),
        text: joined(body),
        program,
        stage: Stage::Write,
        failure: None,
    }
}

/// The launch of `body` as a containerized build: the lines, joined by line
/// feeds, go to the build descriptor. Without elevated privileges it starts
/// with a warning, and goes on all the same.
pub open spec fn container_launch(body: Seq<Seq<char>>, privileged: bool) -> LaunchModel {
    LaunchModel {
        kind: Kind::Container,
        path: descriptor_path(),
        text: joined(body),
        program: container_program(),
        stage: if privileged {
            Stage::Write
        } else {
            Stage::Warn
        },
        failure: None,
    }
}

/// The shell to use: the one that the environment names, else the default.
pub open spec fn shell_program(named: Option<Seq<char>>) -> Seq<char> {
    match named {
        Some(shell) => shell,
        None => default_shell(),
    }
}

/// The launch of `body` in the environment of `family`.
pub open spec fn family_launch(family: Family, body: Seq<Seq<char>>, host: HostModel)
    -> LaunchModel {
    match family {
        Family::Shell => script_launch(body, shell_program(host.shell), host.stamp),
        Family::Container => container_launch(body, host.privileged),
        Family::Script(runtime) => script_launch(body, runtime_program(runtime), host.stamp),
    }
}

impl View for Launch {
    type V = LaunchModel;

    closed spec fn view(&self) -> LaunchModel {
        LaunchModel {
            kind: self.kind,
            path: self.path@,
            text: self.text@,
            program: self.program@,
            stage: self.stage,
            failure: self.failure,
        }
    }
}

/// The arguments of a program, from their texts.
fn arguments(words: &[&str]) -> (args: Vec<String>)
    ensures
        args@.len() == words@.len(),
        forall|i: int| 0 <= i < words@.len() ==> args@[i]@ == words@[i]@,
{
    let mut args: Vec<String> = Vec::new();
    let mut i: usize = 0;
    while i < words.len()
        invariant
            i <= words@.len(),
            args@.len() == i,
            forall|j: int| 0 <= j < i ==> args@[j]@ == words@[j]@,
        decreases words.len() - i,
    {
        args.push(String::from_str(words[i]));
        i += 1;
    }
    args
}

impl Launch {
    /// The action that is due. A launch that has ended says how.
    pub fn action(&self) -> (action: Action)
        ensures
            action@ == self@.action(),
    {
        match self.stage {
            Stage::Warn => Action::Warn(String::from_str("You must be root to run docker")),
            Stage::Write => Action::Write { path: self.path.clone(), text: self.text.clone() },
            Stage::Permit => Action::MakeExecutable {
                path: self.path.clone(),
                mode: EXECUTABLE_MODE,
            },
            Stage::Build => {
                let args = arguments(
                    &["docker", "build", "-t", "runit-temp", "-f", "./.Dockerfile", "."],
                );
                assert(texts(args@) =~= build_args());
                Action::Run { program: self.program.clone(), args }
            },
            Stage::Run => match self.kind {
                Kind::Script => {
                    let mut args: Vec<String> = Vec::new();
                    args.push(self.path.clone());
                    assert(texts(args@) =~= seq![self.path@]);
                    Action::Run { program: self.program.clone(), args }
                },
                Kind::Container => {
                    let args = arguments(&["docker", "run", "--rm", "runit-temp"]);
                    assert(texts(args@) =~= run_args());
                    Action::Run { program: self.program.clone(), args }
                },
            },
            Stage::Remove => Action::Remove { path: self.path.clone() },
            Stage::Done => Action::Finish(
                match self.failure {
                    Some(failure) => Err(failure),
                    None => Ok(()),
                },
            ),
        }
    }

    /// Takes note of what became of the action that was due, and moves on.
    pub fn record(&mut self, outcome: Outcome)
        ensures
            final(self)@ == old(self)@.after(outcome),
    {
        let (next, failure) = match self.stage {
            Stage::Warn => (Stage::Write, None),
            Stage::Write => match (outcome, self.kind) {
                (Outcome::Done, Kind::Script) => (Stage::Permit, None),
                (Outcome::Done, Kind::Container) => (Stage::Build, None),
                _ => (Stage::Done, Some(LaunchError::FilesystemFailure)),
            },
            Stage::Permit => match outcome {
                Outcome::Done => (Stage::Run, None),
                _ => (Stage::Done, Some(LaunchError::FilesystemFailure)),
            },
            Stage::Build => match outcome {
                Outcome::Done => (Stage::Run, None),
                Outcome::Unsuccessful => (Stage::Remove, None),
                Outcome::Failed => (Stage::Remove, Some(LaunchError::SubprocessFailure)),
            },
            Stage::Run => match (outcome, self.kind) {
                (Outcome::Failed, Kind::Script) => (
                    Stage::Done,
                    Some(LaunchError::SubprocessFailure),
                ),
                (Outcome::Failed, Kind::Container) => (
                    Stage::Remove,
                    Some(LaunchError::SubprocessFailure),
                ),
                _ => (Stage::Remove, None),
            },
            Stage::Remove => match outcome {
                Outcome::Done => (Stage::Done, None),
                _ => (Stage::Done, Some(LaunchError::FilesystemFailure)),
            },
            Stage::Done => (Stage::Done, None),
        };
        if self.failure.is_none() {
            self.failure = failure;
        }
        self.stage = next;
    }

    /// The way this launch goes.
    pub fn kind(&self) -> (kind: Kind)
        ensures
            kind == self@.kind,
    {
        self.kind
    }

    /// Whether the launch has ended.
    pub fn is_done(&self) -> (done: bool)
        ensures
            done == (self@.stage is Done),
    {
        match self.stage {
            Stage::Done => true,
            _ => false,
        }
    }
}

/// Names the temporary script of a launch made at the time `stamp`.
pub fn name_script(stamp: u128) -> (path: String)
    ensures
        path@ == temp_path(stamp),
{
    let mut path = String::from_str("/tmp/runit_");
    append_decimal(&mut path, stamp);
    path
}

/// Prepares the launch of `content` as a script that `program` runs, at the
/// time `stamp`.
pub fn shell(content: &[String], program: &str, stamp: u128) -> (launch: Launch)
    ensures
        launch@ == script_launch(texts(content@), program@, stamp),
{
    Launch {
        kind: Kind::Script,
        path: name_script(stamp),
        text: join_lines(content),
        program: String::from_str(program),
        stage: Stage::Write,
        failure: None,
    }
}

/// Prepares the launch of `content` as a containerized build. `privileged`
/// says whether the process has the privileges that the container tool wants;
/// without them the launch warns and goes on.
pub fn docker(content: &[String], privileged: bool) -> (launch: Launch)
    ensures
        launch@ == container_launch(texts(content@), privileged),
{
    Launch {
        kind: Kind::Container,
        path: String::from_str("./.Dockerfile"),
        text: join_lines(content),
        program: String::from_str("sudo"),
        stage: if privileged {
            Stage::Write
        } else {
            Stage::Warn
        },
        failure: None,
    }
}

/// Whether `got` is the launch `expected`, or the diagnostic in its place.
pub open spec fn launches_as(
    got: Result<Launch, LanguageError>,
    expected: Result<LaunchModel, Diagnostic>,
) -> bool {
    match expected {
        Ok(launch) => got is Ok && got->Ok_0@ == launch,
        Err(diagnostic) => got is Err && got->Err_0@ == diagnostic,
    }
}

/// What launching comes to: the launch in the environment that the directive
/// `first` selects, or the diagnostic of `first`.
pub open spec fn launched(
    first: Seq<char>,
    body: Seq<Seq<char>>,
    name: Seq<char>,
    host: HostModel,
) -> Result<LaunchModel, Diagnostic> {
    match resolution(first, name, similarity_scores(first)) {
        Ok(family) => Ok(family_launch(family, body, host)),
        Err(diagnostic) => Err(diagnostic),
    }
}

/// Prepares the launch of the body `buffer` of a task script in the
/// environment of `family`.
pub fn launch_in(family: Family, buffer: &[String], host: &Host) -> (launch: Launch)
    ensures
        launch@ == family_launch(family, texts(buffer@), host@),
{
    match family {
        Family::Shell => match &host.shell {
            Some(named) => shell(buffer, named.as_str(), host.stamp),
            None => shell(buffer, "/usr/bin/sh", host.stamp),
        },
        Family::Container => docker(buffer, host.privileged),
        Family::Script(Runtime::Python) => shell(buffer, "python", host.stamp),
        Family::Script(Runtime::Ruby) => shell(buffer, "ruby", host.stamp),
    }
}

/// Resolves the directive `first` of the task script read from `name`, and
/// prepares the launch of its body `buffer` in the environment selected.
/// Fails with the diagnostic of `first` where it selects none.
pub fn launch(first: &str, buffer: &[String], name: &str, host: &Host) -> (launch: Result<
    Launch,
    LanguageError,
>)
    ensures
        launches_as(launch, launched(first@, texts(buffer@), name@, host@)),
{
    match resolve(first, name) {
        Ok(family) => Ok(launch_in(family, buffer, host)),
        Err(error) => Err(error),
    }
}

/// Scripts made at different times have different names, so that launches
/// which do not start in the same nanosecond never write to one file.
pub proof fn lemma_scripts_of_other_times_differ(one: u128, other: u128)
    requires
        one != other,
    ensures
        temp_path(one) != temp_path(other),
{
    lemma_decimal_spells_its_number(one as nat);
    lemma_decimal_spells_its_number(other as nat);
    let front = "/tmp/runit_"@;
    if temp_path(one) == temp_path(other) {
        let len = front.len() as int;
        assert(temp_path(one).skip(len) =~= decimal(one as nat));
        assert(temp_path(other).skip(len) =~= decimal(other as nat));
    }
}

/// How many reports a launch at `stage` can take before it has ended.
pub open spec fn reports_left(stage: Stage) -> nat {
    match stage {
        Stage::Warn => 5,
        Stage::Write => 4,
        Stage::Permit => 3,
        Stage::Build => 3,
        Stage::Run => 2,
        Stage::Remove => 1,
        Stage::Done => 0,
    }
}

/// A launch starts well formed and stays so, whatever is reported.
pub proof fn lemma_launch_stays_well_formed(
    family: Family,
    body: Seq<Seq<char>>,
    host: HostModel,
    launch: LaunchModel,
    outcome: Outcome,
)
    ensures
        family_launch(family, body, host).well_formed(),
        launch.well_formed() ==> launch.after(outcome).well_formed(),
{
}

/// Every report brings a launch nearer to its end, so that it has ended
/// after five reports at most; a launch that has ended stays as it is. A
/// report changes where the launch stands and what failure it has met, and
/// nothing of what it writes, runs and removes.
pub proof fn lemma_launch_comes_to_an_end(launch: LaunchModel, outcome: Outcome)
    ensures
        launch.stage is Done ==> launch.after(outcome) == launch,
        !(launch.stage is Done) ==> reports_left(launch.after(outcome).stage) < reports_left(
            launch.stage,
        ),
        launch.after(outcome) == (LaunchModel {
            stage: launch.after(outcome).stage,
            failure: launch.after(outcome).failure,
            ..launch
        }),
        launch.failure is Some ==> launch.after(outcome).failure == launch.failure,
{
}

/// Where every action succeeds, a script launch writes the body to its
/// temporary script, makes the script executable, hands it to the runtime,
/// removes it, and ends well. What is written is the body joined by line
/// feeds: nothing is cut off it and nothing is added behind it.
pub proof fn lemma_script_launch_runs_its_course(
    body: Seq<Seq<char>>,
    program: Seq<char>,
    stamp: u128,
)
    ensures
        ({
            let written = script_launch(body, program, stamp);
            let permitted = written.after(Outcome::Done);
            let run = permitted.after(Outcome::Done);
            let removed = run.after(Outcome::Done);
            let ended = removed.after(Outcome::Done);
            &&& written.action() == ActionModel::Write { path: temp_path(stamp), text: joined(body) }
            &&& permitted.action() == ActionModel::MakeExecutable {
                path: temp_path(stamp),
                mode: EXECUTABLE_MODE,
            }
            &&& run.action() == ActionModel::Run { program, args: seq![temp_path(stamp)] }
            &&& removed.action() == ActionModel::Remove { path: temp_path(stamp) }
            &&& ended.action() == ActionModel::Finish(Ok(()))
            &&& run.after(Outcome::Unsuccessful) == removed
        }),
{
}

/// A script launch whose runtime cannot be started or waited for ends there,
/// as a subprocess failure: the temporary script is not removed.
pub proof fn lemma_script_stays_after_a_failed_run(
    body: Seq<Seq<char>>,
    program: Seq<char>,
    stamp: u128,
)
    ensures
        ({
            let run = script_launch(body, program, stamp).after(Outcome::Done).after(Outcome::Done);
            &&& run.stage is Run
            &&& run.after(Outcome::Failed).action() == ActionModel::Finish(
                Err(LaunchError::SubprocessFailure),
            )
        }),
{
}

/// A container launch warns first where privileges are missing, and goes on
/// to write the descriptor whatever comes of the warning. With privileges it
/// starts with the writing.
pub proof fn lemma_container_launch_warns_and_goes_on(
    body: Seq<Seq<char>>,
    privileged: bool,
    outcome: Outcome,
)
    ensures
        ({
            let launch = container_launch(body, privileged);
            let written = if privileged {
                launch
            } else {
                launch.after(outcome)
            };
            &&& !privileged ==> launch.action() == ActionModel::Warn(privilege_warning())
            &&& written.action() == ActionModel::Write {
                path: descriptor_path(),
                text: joined(body),
            }
            &&& written.failure is None
        }),
{
}

/// Once a container launch has written its descriptor, it asks for the
/// removal of the descriptor before it ends, whatever comes of building and
/// running. The image is run only where the build has succeeded; a build or
/// a run that could not be started makes the launch a subprocess failure.
pub proof fn lemma_descriptor_is_removed(
    body: Seq<Seq<char>>,
    built: Outcome,
    run: Outcome,
    removed: Outcome,
)
    ensures
        ({
            let building = container_launch(body, true).after(Outcome::Done);
            let after_build = building.after(built);
            let removing = if built is Done {
                after_build.after(run)
            } else {
                after_build
            };
            &&& building.action() == ActionModel::Run {
                program: container_program(),
                args: build_args(),
            }
            &&& built is Done ==> after_build.action() == ActionModel::Run {
                program: container_program(),
                args: run_args(),
            }
            &&& removing.action() == ActionModel::Remove { path: descriptor_path() }
            &&& removing.after(removed).stage is Done
            &&& removing.after(removed).end() == if built is Failed || (built is Done
                && run is Failed) {
                Err(LaunchError::SubprocessFailure)
            } else if removed is Done {
                Ok(())
            } else {
                Err(LaunchError::FilesystemFailure)
            }
        }),
{
}

} // verus!
