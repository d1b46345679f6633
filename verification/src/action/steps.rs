//! The build step of an action, one step at a time.
//!
//! Building runs scripts and moves files, which this library does not do
//! itself. It decides: [`Action::build`] takes what happened to the step
//! handed out last and hands out the next one. The caller carries each step
//! out and reports back, until the step is [`BuildStep::Done`] or the build
//! has failed.

use crate::action::command::{
    check_exit, command_line, exit_failure, parse_command, BuildError, BuildFailure,
    CommandLineView,
};
use crate::action::{Action, ActionView};
use crate::package::{clone_strings, RemotePackageView};
use vstd::prelude::*;

verus! {

/// Where a build stands: the kind of step that is under way.
#[derive(Debug, Clone, Copy, PartialEq, Eq)]
pub enum BuildStage {
    /// Nothing has been handed out yet.
    Start,
    /// The staging directory is being made.
    Prepare,
    /// A command of the `pre_install` script runs.
    PreInstall,
    /// A command of the `install` script runs.
    Install,
    /// A directory below the staging directory is being read.
    Scan,
    /// The new files are being moved into place.
    Move,
    /// A command of the `post_install` script runs.
    PostInstall,
    /// A command of the `pre_remove` script runs.
    PreRemove,
    /// The package's files are being deleted.
    Delete,
    /// A command of the `post_remove` script runs.
    PostRemove,
    /// The build is done.
    Finished,
    /// The build has failed.
    Failed,
}

/// A file or directory to move: from where it was staged to where it
/// belongs.
#[derive(Debug, PartialEq, Eq)]
pub struct FileMove {
    pub source: String,
    pub target: String,
}

/// Mathematical model of a [`FileMove`].
pub struct FileMoveView {
    pub source: Seq<char>,
    pub target: Seq<char>,
}

impl View for FileMove {
    type V = FileMoveView;

    open spec fn view(&self) -> FileMoveView {
        FileMoveView { source: self.source@, target: self.target@ }
    }
}

impl DeepView for FileMove {
    type V = FileMoveView;

    open spec fn deep_view(&self) -> FileMoveView {
        self@
    }
}

impl Clone for FileMove {
    fn clone(&self) -> (copy: Self)
        ensures
            copy@ == self@,
    {
        FileMove { source: self.source.clone(), target: self.target.clone() }
    }
}

/// A directory below the staging directory, and the directory of the real
/// filesystem that it stands for. Both paths end in a slash, so that the
/// name of an entry can follow at once.
#[derive(Debug, PartialEq, Eq)]
pub struct ScanPlace {
    pub staged: String,
    pub real: String,
}

/// Mathematical model of a [`ScanPlace`].
pub struct ScanPlaceView {
    pub staged: Seq<char>,
    pub real: Seq<char>,
}

impl View for ScanPlace {
    type V = ScanPlaceView;

    open spec fn view(&self) -> ScanPlaceView {
        ScanPlaceView { staged: self.staged@, real: self.real@ }
    }
}

impl DeepView for ScanPlace {
    type V = ScanPlaceView;

    open spec fn deep_view(&self) -> ScanPlaceView {
        self@
    }
}

impl Clone for ScanPlace {
    fn clone(&self) -> (copy: Self)
        ensures
            copy@ == self@,
    {
        ScanPlace { staged: self.staged.clone(), real: self.real.clone() }
    }
}

/// One entry of a staged directory, as the caller found it.
#[derive(Debug, PartialEq, Eq)]
pub struct StagedEntry {
    /// The entry's name within its directory.
    pub name: String,
    /// Whether the real filesystem has something at the entry's place.
    pub target_exists: bool,
    /// Whether the staged entry is a directory.
    pub is_directory: bool,
}

/// Mathematical model of a [`StagedEntry`].
pub struct StagedEntryView {
    pub name: Seq<char>,
    pub target_exists: bool,
    pub is_directory: bool,
}

impl View for StagedEntry {
    type V = StagedEntryView;

    open spec fn view(&self) -> StagedEntryView {
        StagedEntryView {
            name: self.name@,
            target_exists: self.target_exists,
            is_directory: self.is_directory,
        }
    }
}

impl DeepView for StagedEntry {
    type V = StagedEntryView;

    open spec fn deep_view(&self) -> StagedEntryView {
        self@
    }
}

/// What the caller is to do next.
#[derive(Debug, PartialEq, Eq)]
pub enum BuildStep {
    /// Make `path` an empty directory: delete what is there, then create
    /// it.
    PrepareDirectory { path: String },
    /// Run `program` with `arguments` in `directory` and wait for it.
    RunCommand { program: String, arguments: Vec<String>, directory: String },
    /// List the entries of the staged directory of `place`, and find out for
    /// each whether its name exists in the real directory of `place`.
    ScanDirectory { place: ScanPlace },
    /// Move every source to its target, in order.
    MoveFiles { moves: Vec<FileMove> },
    /// Delete every path, in order: a directory with all that is in it.
    DeleteFiles { paths: Vec<String> },
    /// Nothing: the action is built.
    Done,
}

/// Mathematical model of a [`BuildStep`].
pub enum BuildStepView {
    PrepareDirectory { path: Seq<char> },
    RunCommand { line: CommandLineView, directory: Seq<char> },
    ScanDirectory { place: ScanPlaceView },
    MoveFiles { moves: Seq<FileMoveView> },
    DeleteFiles { paths: Seq<Seq<char>> },
    Done,
}

impl View for BuildStep {
    type V = BuildStepView;

    open spec fn view(&self) -> BuildStepView {
        match self {
            BuildStep::PrepareDirectory { path } => BuildStepView::PrepareDirectory { path: path@ },
            BuildStep::RunCommand { program, arguments, directory } => BuildStepView::RunCommand {
                line: CommandLineView { program: program@, arguments: arguments.deep_view() },
                directory: directory@,
            },
            BuildStep::ScanDirectory { place } => BuildStepView::ScanDirectory { place: place@ },
            BuildStep::MoveFiles { moves } => BuildStepView::MoveFiles {
                moves: moves.deep_view(),
            },
            BuildStep::DeleteFiles { paths } => BuildStepView::DeleteFiles {
                paths: paths.deep_view(),
            },
            BuildStep::Done => BuildStepView::Done,
        }
    }
}

/// What happened to the step handed out last.
#[derive(Debug, PartialEq, Eq)]
pub enum BuildEvent {
    /// Nothing yet: the build begins.
    Started,
    /// The directory was prepared, or the files were moved or deleted.
    Completed,
    /// The command ran and its process ended.
    Exited { success: bool, code: Option<i32>, stdout: String, stderr: String },
    /// The directory was read; its entries.
    Scanned { entries: Vec<StagedEntry> },
    /// The filesystem, or the start of the process, failed; the message.
    Failed { message: String },
}

/// Mathematical model of a [`BuildEvent`].
pub enum BuildEventView {
    Started,
    Completed,
    Exited { success: bool, code: Option<i32>, stdout: Seq<char>, stderr: Seq<char> },
    Scanned { entries: Seq<StagedEntryView> },
    Failed { message: Seq<char> },
}

impl View for BuildEvent {
    type V = BuildEventView;

    open spec fn view(&self) -> BuildEventView {
        match self {
            BuildEvent::Started => BuildEventView::Started,
            BuildEvent::Completed => BuildEventView::Completed,
            BuildEvent::Exited { success, code, stdout, stderr } => BuildEventView::Exited {
                success: *success,
                code: *code,
                stdout: stdout@,
                stderr: stderr@,
            },
            BuildEvent::Scanned { entries } => BuildEventView::Scanned {
                entries: entries.deep_view(),
            },
            BuildEvent::Failed { message } => BuildEventView::Failed { message: message@ },
        }
    }
}

/// Mathematical model of a [`BuildState`].
pub struct BuildStateView {
    /// The kind of step that is under way.
    pub stage: BuildStage,
    /// While a script runs, the place of the running command in it.
    pub index: nat,
    /// While directories are read, the one that is being read.
    pub place: ScanPlaceView,
    /// The directories still to read; the last comes next.
    pub pending: Seq<ScanPlaceView>,
    /// The moves found so far.
    pub moves: Seq<FileMoveView>,
}

/// Where the build of one action stands.
#[derive(Debug)]
pub struct BuildState {
    stage: BuildStage,
    index: usize,
    place: ScanPlace,
    pending: Vec<ScanPlace>,
    moves: Vec<FileMove>,
}

impl View for BuildState {
    type V = BuildStateView;

    closed spec fn view(&self) -> BuildStateView {
        BuildStateView {
            stage: self.stage,
            index: self.index as nat,
            place: self.place@,
            pending: self.pending.deep_view(),
            moves: self.moves.deep_view(),
        }
    }
}

/// The state of a build of which nothing has been handed out yet.
pub open spec fn initial_state() -> BuildStateView {
    BuildStateView {
        stage: BuildStage::Start,
        index: 0,
        place: ScanPlaceView { staged: Seq::empty(), real: Seq::empty() },
        pending: Seq::empty(),
        moves: Seq::empty(),
    }
}

impl BuildState {
    /// The state of a build of which nothing has been handed out yet.
    pub fn new() -> (state: BuildState)
        ensures
            state@ == initial_state(),
    {
        let state = BuildState {
            stage: BuildStage::Start,
            index: 0,
            place: ScanPlace { staged: String::new(), real: String::new() },
            pending: Vec::new(),
            moves: Vec::new(),
        };
        assert(state.pending.deep_view() =~= Seq::<ScanPlaceView>::empty());
        assert(state.moves.deep_view() =~= Seq::<FileMoveView>::empty());
        state
    }

    /// The kind of step that is under way.
    pub fn stage(&self) -> (stage: BuildStage)
        ensures
            stage == self@.stage,
    {
        self.stage
    }
}

/// The directory in which a package is staged: the build path, a slash, and
/// the package's name.
pub open spec fn staging_directory(path: Seq<char>, name: Seq<char>) -> Seq<char> {
    path + "/"@ + name
}

/// The staging directory of a package and the root of the real filesystem,
/// as the first place to read.
pub open spec fn staging_place(path: Seq<char>, name: Seq<char>) -> ScanPlaceView {
    ScanPlaceView { staged: staging_directory(path, name) + "/"@, real: "/"@ }
}

/// The directory in which the scripts of an action run: the staging
/// directory for an installation, the root for a removal.
pub open spec fn working_directory(action: ActionView, path: Seq<char>) -> Seq<char> {
    match action {
        ActionView::Install(package) => staging_directory(path, package.package_data.name),
        ActionView::Remove(_) => "/"@,
    }
}

/// The script that runs in a stage; empty for a stage that runs none, or
/// that is no stage of this kind of action.
pub open spec fn script(action: ActionView, stage: BuildStage) -> Seq<Seq<char>> {
    match (action, stage) {
        (ActionView::Install(package), BuildStage::PreInstall) => package.pre_install,
        (ActionView::Install(package), BuildStage::Install) => package.install,
        (ActionView::Install(package), BuildStage::PostInstall) => package.post_install,
        (ActionView::Remove(package), BuildStage::PreRemove) => package.pre_remove,
        (ActionView::Remove(package), BuildStage::PostRemove) => package.post_remove,
        _ => Seq::empty(),
    }
}

/// Whether a stage is one of the builds of this kind of action.
pub open spec fn stage_fits(action: ActionView, stage: BuildStage) -> bool {
    match stage {
        BuildStage::Start | BuildStage::Finished | BuildStage::Failed => true,
        BuildStage::Prepare
        | BuildStage::PreInstall
        | BuildStage::Install
        | BuildStage::Scan
        | BuildStage::Move
        | BuildStage::PostInstall => action is Install,
        BuildStage::PreRemove | BuildStage::Delete | BuildStage::PostRemove => action is Remove,
    }
}

/// Whether a script runs in the stage.
pub open spec fn runs_script(stage: BuildStage) -> bool {
    stage is PreInstall || stage is Install || stage is PostInstall || stage is PreRemove
        || stage is PostRemove
}

/// What the entries of the directory `place` add to the directories still
/// to read and to the moves: an entry that the real filesystem lacks is
/// moved as a whole, and an entry that it has is read in turn where it is a
/// directory.
pub open spec fn scan_entries(
    place: ScanPlaceView,
    entries: Seq<StagedEntryView>,
    pending: Seq<ScanPlaceView>,
    moves: Seq<FileMoveView>,
) -> (Seq<ScanPlaceView>, Seq<FileMoveView>)
    decreases entries.len(),
{
    if entries.len() == 0 {
        (pending, moves)
    } else {
        let (pending, moves) = scan_entries(place, entries.drop_last(), pending, moves);
        let entry = entries.last();
        let source = place.staged + entry.name;
        let target = place.real + entry.name;
        if !entry.target_exists {
            (pending, moves.push(FileMoveView { source, target }))
        } else if entry.is_directory {
            (pending.push(ScanPlaceView { staged: source + "/"@, real: target + "/"@ }), moves)
        } else {
            (pending, moves)
        }
    }
}

/// The targets of a sequence of moves, in order.
pub open spec fn move_targets(moves: Seq<FileMoveView>) -> Seq<Seq<char>> {
    moves.map_values(|file: FileMoveView| file.target)
}

/// The action with `files` as the files of its package, where it is an
/// installation.
pub open spec fn with_package_files(action: ActionView, files: Seq<Seq<char>>) -> ActionView {
    match action {
        ActionView::Install(package) => ActionView::Install(
            RemotePackageView { package_files: files, ..package },
        ),
        ActionView::Remove(package) => action,
    }
}

/// What a call of [`Action::build`] leaves: the action, the state, and the
/// step or the failure.
pub struct BuildOutcome {
    pub action: ActionView,
    pub state: BuildStateView,
    pub result: Result<BuildStepView, BuildFailure>,
}

/// The outcome of a build that fails.
pub open spec fn build_failed(
    action: ActionView,
    state: BuildStateView,
    failure: BuildFailure,
) -> BuildOutcome {
    BuildOutcome {
        action,
        state: BuildStateView { stage: BuildStage::Failed, ..state },
        result: Err(failure),
    }
}

/// The failure that the event means for the step under way; `None` where
/// the step ended well.
pub open spec fn judge(action: ActionView, state: BuildStateView, event: BuildEventView) -> Option<
    BuildFailure,
> {
    if !stage_fits(action, state.stage) {
        Some(BuildFailure::UnexpectedEvent)
    } else if state.stage is Finished || state.stage is Failed {
        Some(BuildFailure::UnexpectedEvent)
    } else if state.stage is Start {
        if event is Started {
            None
        } else {
            Some(BuildFailure::UnexpectedEvent)
        }
    } else {
        match event {
            BuildEventView::Failed { message } => Some(BuildFailure::Io(message)),
            BuildEventView::Started => Some(BuildFailure::UnexpectedEvent),
            BuildEventView::Completed => if state.stage is Prepare || state.stage is Move
                || state.stage is Delete {
                None
            } else {
                Some(BuildFailure::UnexpectedEvent)
            },
            BuildEventView::Scanned { entries } => if state.stage is Scan {
                None
            } else {
                Some(BuildFailure::UnexpectedEvent)
            },
            BuildEventView::Exited { success, code, stdout, stderr } => if runs_script(state.stage)
                && state.index < script(action, state.stage).len() {
                exit_failure(script(action, state.stage)[state.index as int], success, code, stderr)
            } else {
                Some(BuildFailure::UnexpectedEvent)
            },
        }
    }
}

/// How many scripts follow the script of a stage without another kind of
/// step between them.
pub open spec fn scripts_after(stage: BuildStage) -> nat {
    if stage is PreInstall {
        1
    } else {
        0
    }
}

/// The outcome of going on with the command at `index` of the script of
/// `stage`: that command, or, where the script has no such command, what
/// follows the script.
pub open spec fn run_script(
    action: ActionView,
    path: Seq<char>,
    state: BuildStateView,
    stage: BuildStage,
    index: nat,
) -> BuildOutcome
    decreases scripts_after(stage),
{
    let commands = script(action, stage);
    if index < commands.len() {
        match command_line(commands[index as int]) {
            Ok(line) => BuildOutcome {
                action,
                state: BuildStateView { stage, index, ..state },
                result: Ok(
                    BuildStepView::RunCommand { line, directory: working_directory(action, path) },
                ),
            },
            Err(failure) => build_failed(action, state, failure),
        }
    } else {
        match stage {
            BuildStage::PreInstall => run_script(action, path, state, BuildStage::Install, 0),
            BuildStage::Install => {
                let place = staging_place(path, action.name());
                BuildOutcome {
                    action,
                    state: BuildStateView {
                        stage: BuildStage::Scan,
                        index: 0,
                        place,
                        pending: Seq::empty(),
                        moves: Seq::empty(),
                    },
                    result: Ok(BuildStepView::ScanDirectory { place }),
                }
            },
            BuildStage::PreRemove => BuildOutcome {
                action,
                state: BuildStateView { stage: BuildStage::Delete, index: 0, ..state },
                result: Ok(
                    BuildStepView::DeleteFiles {
                        paths: match action {
                            ActionView::Remove(package) => package.package_files,
                            ActionView::Install(package) => package.package_files,
                        },
                    },
                ),
            },
            _ => BuildOutcome {
                action,
                state: BuildStateView { stage: BuildStage::Finished, index: 0, ..state },
                result: Ok(BuildStepView::Done),
            },
        }
    }
}

/// What a call of [`Action::build`] does: it judges the event against the
/// step under way, and where that step ended well, goes on to the next.
///
/// An installation prepares the staging directory, runs `pre_install` and
/// `install` there, reads the staged directories, moves what is new into
/// place, takes the targets of the moves as the package's files, and runs
/// `post_install`. A removal runs `pre_remove` in the root, deletes the
/// package's files, and runs `post_remove`.
pub open spec fn build_next(
    action: ActionView,
    path: Seq<char>,
    state: BuildStateView,
    event: BuildEventView,
) -> BuildOutcome {
    match judge(action, state, event) {
        Some(failure) => build_failed(action, state, failure),
        None => match state.stage {
            BuildStage::Start => match action {
                ActionView::Install(package) => BuildOutcome {
                    action,
                    state: BuildStateView { stage: BuildStage::Prepare, index: 0, ..state },
                    result: Ok(
                        BuildStepView::PrepareDirectory {
                            path: staging_directory(path, package.package_data.name),
                        },
                    ),
                },
                ActionView::Remove(_) => run_script(action, path, state, BuildStage::PreRemove, 0),
            },
            BuildStage::Prepare => run_script(action, path, state, BuildStage::PreInstall, 0),
            BuildStage::Scan => {
                let (pending, moves) = scan_entries(
                    state.place,
                    event->Scanned_entries,
                    state.pending,
                    state.moves,
                );
                if pending.len() > 0 {
                    BuildOutcome {
                        action,
                        state: BuildStateView {
                            place: pending.last(),
                            pending: pending.drop_last(),
                            moves,
                            ..state
                        },
                        result: Ok(BuildStepView::ScanDirectory { place: pending.last() }),
                    }
                } else {
                    BuildOutcome {
                        action,
                        state: BuildStateView {
                            stage: BuildStage::Move,
                            index: 0,
                            pending,
                            moves,
                            ..state
                        },
                        result: Ok(BuildStepView::MoveFiles { moves }),
                    }
                }
            },
            BuildStage::Move => run_script(
                with_package_files(action, move_targets(state.moves)),
                path,
                state,
                BuildStage::PostInstall,
                0,
            ),
            BuildStage::Delete => run_script(action, path, state, BuildStage::PostRemove, 0),
            _ => run_script(action, path, state, state.stage, state.index + 1),
        },
    }
}

/// Whether `result` is the step, or the failure, of `outcome`.
pub open spec fn step_agrees(result: Result<BuildStep, BuildError>, outcome: BuildOutcome) -> bool {
    match result {
        Ok(step) => outcome.result == Ok::<BuildStepView, BuildFailure>(step@),
        Err(error) => outcome.result == Err::<BuildStepView, BuildFailure>(error@),
    }
}

/// The directory in which a package is staged.
fn staging_path(path: &str, name: &str) -> (directory: String)
    ensures
        directory@ == staging_directory(path@, name@),
{
    String::from_str(path).concat("/").concat(name)
}

/// Copies a list of moves.
fn clone_moves(moves: &Vec<FileMove>) -> (copy: Vec<FileMove>)
    ensures
        copy.deep_view() == moves.deep_view(),
{
    let mut copy: Vec<FileMove> = Vec::new();
    let mut i: usize = 0;
    while i < moves.len()
        invariant
            i <= moves.len(),
            copy.deep_view() == moves.deep_view().take(i as int),
        decreases moves.len() - i,
    {
        let ghost seen = copy.deep_view();
        let file = moves[i].clone();
        copy.push(file);
        assert(copy.deep_view() =~= seen.push(moves[i as int]@));
        assert(moves.deep_view().take(i + 1) =~= moves.deep_view().take(i as int).push(
            moves[i as int]@,
        ));
        i += 1;
    }
    assert(moves.deep_view().take(i as int) =~= moves.deep_view());
    copy
}

/// The targets of a list of moves, in order.
fn targets_of(moves: &Vec<FileMove>) -> (targets: Vec<String>)
    ensures
        targets.deep_view() == move_targets(moves.deep_view()),
{
    let mut targets: Vec<String> = Vec::new();
    let mut i: usize = 0;
    while i < moves.len()
        invariant
            i <= moves.len(),
            targets.deep_view() == move_targets(moves.deep_view()).take(i as int),
        decreases moves.len() - i,
    {
        let ghost seen = targets.deep_view();
        targets.push(moves[i].target.clone());
        assert(targets.deep_view() =~= seen.push(moves[i as int]@.target));
        assert(move_targets(moves.deep_view()).take(i + 1) =~= move_targets(
            moves.deep_view(),
        ).take(i as int).push(moves[i as int]@.target));
        i += 1;
    }
    assert(move_targets(moves.deep_view()).take(i as int) =~= move_targets(moves.deep_view()));
    targets
}

impl BuildState {
    /// Takes in the entries of the directory that was read.
    fn take_entries(&mut self, entries: &Vec<StagedEntry>)
        ensures
            final(self)@.stage == old(self)@.stage,
            final(self)@.index == old(self)@.index,
            final(self)@.place == old(self)@.place,
            (final(self)@.pending, final(self)@.moves) == scan_entries(
                old(self)@.place,
                entries.deep_view(),
                old(self)@.pending,
                old(self)@.moves,
            ),
    {
        let ghost all = entries.deep_view();
        let mut i: usize = 0;
        while i < entries.len()
            invariant
                i <= entries.len(),
                all == entries.deep_view(),
                self@.stage == old(self)@.stage,
                self@.index == old(self)@.index,
                self@.place == old(self)@.place,
                (self@.pending, self@.moves) == scan_entries(
                    old(self)@.place,
                    all.take(i as int),
                    old(self)@.pending,
                    old(self)@.moves,
                ),
            decreases entries.len() - i,
        {
            proof {
                assert(all.take(i + 1).drop_last() =~= all.take(i as int));
                assert(all.take(i + 1).last() == entries[i as int]@);
            }
            let ghost pending = self@.pending;
            let ghost moves = self@.moves;
            let source = self.place.staged.clone().concat(entries[i].name.as_str());
            let target = self.place.real.clone().concat(entries[i].name.as_str());
            if !entries[i].target_exists {
                let file = FileMove { source, target };
                self.moves.push(file);
                assert(self@.moves =~= moves.push(file@));
            } else if entries[i].is_directory {
                let place = ScanPlace { staged: source.concat("/"), real: target.concat("/") };
                self.pending.push(place);
                assert(self@.pending =~= pending.push(place@));
            }
            i += 1;
        }
        assert(all.take(i as int) =~= all);
    }
}

impl Action {
    /// The script that runs in a stage, where this kind of action has one
    /// there.
    fn commands(&self, stage: BuildStage) -> (list: Option<&Vec<String>>)
        ensures
            match list {
                Some(commands) => commands.deep_view() == script(self@, stage),
                None => script(self@, stage) == Seq::<Seq<char>>::empty(),
            },
    {
        match self {
            Action::Install(package) => match stage {
                BuildStage::PreInstall => Some(&package.pre_install),
                BuildStage::Install => Some(&package.install),
                BuildStage::PostInstall => Some(&package.post_install),
                _ => None,
            },
            Action::Remove(package) => match stage {
                BuildStage::PreRemove => Some(&package.pre_remove),
                BuildStage::PostRemove => Some(&package.post_remove),
                _ => None,
            },
        }
    }

    /// Whether a stage is one of the builds of this kind of action.
    fn fits(&self, stage: BuildStage) -> (fits: bool)
        ensures
            fits == stage_fits(self@, stage),
    {
        match stage {
            BuildStage::Start | BuildStage::Finished | BuildStage::Failed => true,
            BuildStage::Prepare
            | BuildStage::PreInstall
            | BuildStage::Install
            | BuildStage::Scan
            | BuildStage::Move
            | BuildStage::PostInstall => match self {
                Action::Install(_) => true,
                Action::Remove(_) => false,
            },
            BuildStage::PreRemove | BuildStage::Delete | BuildStage::PostRemove => match self {
                Action::Install(_) => false,
                Action::Remove(_) => true,
            },
        }
    }

    /// The directory in which the scripts of the action run.
    fn working_path(&self, path: &str) -> (directory: String)
        ensures
            directory@ == working_directory(self@, path@),
    {
        match self {
            Action::Install(package) => staging_path(path, package.package_data.name.as_str()),
            Action::Remove(_) => String::from_str("/"),
        }
    }

    /// The files of the action's package.
    fn files(&self) -> (paths: Vec<String>)
        ensures
            paths.deep_view() == match self@ {
                ActionView::Remove(package) => package.package_files,
                ActionView::Install(package) => package.package_files,
            },
    {
        match self {
            Action::Install(package) => clone_strings(&package.package_files),
            Action::Remove(package) => clone_strings(&package.package_files),
        }
    }

    /// Judges the event against the step under way. Where the step ended
    /// well, this gives the entries that the event brought, if any.
    fn judge_event(&self, state: &BuildState, event: BuildEvent) -> (result: Result<
        Vec<StagedEntry>,
        BuildError,
    >)
        ensures
            match result {
                Ok(entries) => {
                    &&& judge(self@, state@, event@) is None
                    &&& event@ matches BuildEventView::Scanned { entries: found }
                        ==> entries.deep_view() == found
                },
                Err(error) => judge(self@, state@, event@) == Some(error@),
            },
    {
        if !self.fits(state.stage) {
            return Err(BuildError::UnexpectedEvent);
        }
        match state.stage {
            BuildStage::Finished | BuildStage::Failed => {
                return Err(BuildError::UnexpectedEvent);
            },
            BuildStage::Start => {
                return match event {
                    BuildEvent::Started => Ok(Vec::new()),
                    _ => Err(BuildError::UnexpectedEvent),
                };
            },
            _ => {},
        }
        match event {
            BuildEvent::Failed { message } => Err(BuildError::IO(message)),
            BuildEvent::Started => Err(BuildError::UnexpectedEvent),
            BuildEvent::Completed => match state.stage {
                BuildStage::Prepare | BuildStage::Move | BuildStage::Delete => Ok(Vec::new()),
                _ => Err(BuildError::UnexpectedEvent),
            },
            BuildEvent::Scanned { entries } => match state.stage {
                BuildStage::Scan => Ok(entries),
                _ => Err(BuildError::UnexpectedEvent),
            },
            BuildEvent::Exited { success, code, stdout, stderr } => {
                match self.commands(state.stage) {
                    Some(commands) => {
                        if state.index < commands.len() {
                            match check_exit(
                                commands[state.index].as_str(),
                                success,
                                code,
                                stdout,
                                stderr,
                            ) {
                                Ok(_) => Ok(Vec::new()),
                                Err(error) => Err(error),
                            }
                        } else {
                            Err(BuildError::UnexpectedEvent)
                        }
                    },
                    None => Err(BuildError::UnexpectedEvent),
                }
            },
        }
    }

    /// Goes on with the command at `index` of the script of `stage`, or
    /// with what follows that script.
    fn run_script(
        &self,
        path: &str,
        state: &mut BuildState,
        stage: BuildStage,
        index: usize,
    ) -> (result: Result<BuildStep, BuildError>)
        requires
            runs_script(stage),
            stage_fits(self@, stage),
        ensures
            final(state)@ == run_script(self@, path@, old(state)@, stage, index as nat).state,
            run_script(self@, path@, old(state)@, stage, index as nat).action == self@,
            step_agrees(result, run_script(self@, path@, old(state)@, stage, index as nat)),
        decreases scripts_after(stage),
    {
        match self.commands(stage) {
            Some(commands) => {
                if index < commands.len() {
                    return match parse_command(commands[index].as_str()) {
                        Ok(line) => {
                            state.stage = stage;
                            state.index = index;
                            Ok(
                                BuildStep::RunCommand {
                                    program: line.program,
                                    arguments: line.arguments,
                                    directory: self.working_path(path),
                                },
                            )
                        },
                        Err(error) => {
                            state.stage = BuildStage::Failed;
                            Err(error)
                        },
                    };
                }
            },
            None => {},
        }
        match stage {
            BuildStage::PreInstall => self.run_script(path, state, BuildStage::Install, 0),
            BuildStage::Install => {
                let staged = staging_path(path, self.package_name()).concat("/");
                let place = ScanPlace { staged, real: String::from_str("/") };
                state.stage = BuildStage::Scan;
                state.index = 0;
                state.place = place.clone();
                state.pending = Vec::new();
                state.moves = Vec::new();
                assert(state.pending.deep_view() =~= Seq::<ScanPlaceView>::empty());
                assert(state.moves.deep_view() =~= Seq::<FileMoveView>::empty());
                Ok(BuildStep::ScanDirectory { place })
            },
            BuildStage::PreRemove => {
                state.stage = BuildStage::Delete;
                state.index = 0;
                Ok(BuildStep::DeleteFiles { paths: self.files() })
            },
            _ => {
                state.stage = BuildStage::Finished;
                state.index = 0;
                Ok(BuildStep::Done)
            },
        }
    }

    /// Takes the targets of the moves as the files of the package.
    fn record_files(&mut self, moves: &Vec<FileMove>)
        ensures
            final(self)@ == with_package_files(old(self)@, move_targets(moves.deep_view())),
    {
        match self {
            Action::Install(package) => {
                package.package_files = targets_of(moves);
            },
            Action::Remove(_) => {},
        }
    }

    /// Builds the action, one step at a time: takes what happened to the
    /// step handed out last, and hands out the next one, as [`build_next`]
    /// lays it down. The first call reports [`BuildEvent::Started`] with a
    /// new [`BuildState`]; the build is over when the step is
    /// [`BuildStep::Done`] or the result is an error, after which every call
    /// is an error.
    ///
    /// A command that ends badly, a command that cannot be read and a
    /// failure of the filesystem end the build at once: no further command
    /// is handed out, and nothing that was moved is moved back.
    pub fn build(
        &mut self,
        package_build_path: &str,
        state: &mut BuildState,
        event: BuildEvent,
    ) -> (result: Result<BuildStep, BuildError>)
        ensures
            final(self)@ == build_next(
                old(self)@,
                package_build_path@,
                old(state)@,
                event@,
            ).action,
            final(state)@ == build_next(
                old(self)@,
                package_build_path@,
                old(state)@,
                event@,
            ).state,
            step_agrees(
                result,
                build_next(old(self)@, package_build_path@, old(state)@, event@),
            ),
    {
        let ghost reported = event@;
        let entries = match self.judge_event(state, event) {
            Ok(entries) => entries,
            Err(error) => {
                state.stage = BuildStage::Failed;
                return Err(error);
            },
        };
        match state.stage {
            BuildStage::Start => match self {
                Action::Install(package) => {
                    state.stage = BuildStage::Prepare;
                    state.index = 0;
                    Ok(
                        BuildStep::PrepareDirectory {
                            path: staging_path(
                                package_build_path,
                                package.package_data.name.as_str(),
                            ),
                        },
                    )
                },
                Action::Remove(_) => self.run_script(
                    package_build_path,
                    state,
                    BuildStage::PreRemove,
                    0,
                ),
            },
            BuildStage::Prepare => self.run_script(
                package_build_path,
                state,
                BuildStage::PreInstall,
                0,
            ),
            BuildStage::Scan => {
                state.take_entries(&entries);
                let ghost pending = state@.pending;
                match state.pending.pop() {
                    Some(place) => {
                        assert(state@.pending =~= pending.drop_last());
                        state.place = place.clone();
                        Ok(BuildStep::ScanDirectory { place })
                    },
                    None => {
                        assert(state@.pending =~= pending);
                        state.stage = BuildStage::Move;
                        state.index = 0;
                        Ok(BuildStep::MoveFiles { moves: clone_moves(&state.moves) })
                    },
                }
            },
            BuildStage::Move => {
                self.record_files(&state.moves);
                self.run_script(package_build_path, state, BuildStage::PostInstall, 0)
            },
            BuildStage::Delete => self.run_script(
                package_build_path,
                state,
                BuildStage::PostRemove,
                0,
            ),
            BuildStage::Finished | BuildStage::Failed => Err(BuildError::UnexpectedEvent),
            _ => {
                let stage = state.stage;
                let index: usize = state.index;
                let commands = self.commands(stage);
                assert(index < script(self@, stage).len());
                match commands {
                    Some(commands) => {
                        assert(index < commands.len());
                        self.run_script(package_build_path, state, stage, index + 1)
                    },
                    None => Err(BuildError::UnexpectedEvent),
                }
            },
        }
    }
}

} // verus!
