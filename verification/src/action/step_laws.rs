//! What holds of every build, whatever the caller reports.

use crate::action::command::{command_line, exit_failure, BuildFailure};
use crate::action::steps::{
    build_next, judge, move_targets, run_script, runs_script, script, stage_fits,
    with_package_files, working_directory, BuildEventView, BuildStage, BuildStateView,
    BuildStepView,
};
use crate::action::ActionView;
use vstd::prelude::*;

verus! {

/// A failure ends the build: the state is `Failed`, and whatever is
/// reported afterwards is out of turn and changes neither the state nor the
/// action.
pub proof fn lemma_failure_is_final(
    action: ActionView,
    path: Seq<char>,
    state: BuildStateView,
    event: BuildEventView,
    later: BuildEventView,
)
    requires
        build_next(action, path, state, event).result is Err,
    ensures
        build_next(action, path, state, event).state.stage is Failed,
        build_next(
            build_next(action, path, state, event).action,
            path,
            build_next(action, path, state, event).state,
            later,
        ).result == Err::<BuildStepView, BuildFailure>(BuildFailure::UnexpectedEvent),
        build_next(
            build_next(action, path, state, event).action,
            path,
            build_next(action, path, state, event).state,
            later,
        ).state == build_next(action, path, state, event).state,
        build_next(
            build_next(action, path, state, event).action,
            path,
            build_next(action, path, state, event).state,
            later,
        ).action == build_next(action, path, state, event).action,
{
    lemma_script_outcome(action, path, state, state.stage, state.index + 1);
    lemma_script_outcome(action, path, state, BuildStage::PreRemove, 0);
    lemma_script_outcome(action, path, state, BuildStage::PostRemove, 0);
    lemma_script_outcome(action, path, state, BuildStage::PreInstall, 0);
    lemma_script_outcome(
        with_package_files(action, move_targets(state.moves)),
        path,
        state,
        BuildStage::PostInstall,
        0,
    );
}

/// Going on with a script either fails, which leaves the state `Failed`, or
/// hands a step out; the action stays as it is.
pub proof fn lemma_script_outcome(
    action: ActionView,
    path: Seq<char>,
    state: BuildStateView,
    stage: BuildStage,
    index: nat,
)
    ensures
        run_script(action, path, state, stage, index).action == action,
        run_script(action, path, state, stage, index).result is Err <==> run_script(
            action,
            path,
            state,
            stage,
            index,
        ).state.stage is Failed,
        run_script(action, path, state, stage, index).result == Ok::<
            BuildStepView,
            BuildFailure,
        >(BuildStepView::Done) <==> run_script(
            action,
            path,
            state,
            stage,
            index,
        ).state.stage is Finished,
    decreases (if stage is PreInstall { 1nat } else { 0nat }),
{
    if index >= script(action, stage).len() && stage is PreInstall {
        lemma_script_outcome(action, path, state, BuildStage::Install, 0);
    }
}

/// When the step handed out is `Done`, the build is over: the state is
/// `Finished`, and whatever is reported afterwards is out of turn.
pub proof fn lemma_done_is_final(
    action: ActionView,
    path: Seq<char>,
    state: BuildStateView,
    event: BuildEventView,
    later: BuildEventView,
)
    requires
        build_next(action, path, state, event).result == Ok::<BuildStepView, BuildFailure>(
            BuildStepView::Done,
        ),
    ensures
        build_next(action, path, state, event).state.stage is Finished,
        build_next(
            build_next(action, path, state, event).action,
            path,
            build_next(action, path, state, event).state,
            later,
        ).result == Err::<BuildStepView, BuildFailure>(BuildFailure::UnexpectedEvent),
{
    lemma_script_outcome(action, path, state, state.stage, state.index + 1);
    lemma_script_outcome(action, path, state, BuildStage::PreRemove, 0);
    lemma_script_outcome(action, path, state, BuildStage::PostRemove, 0);
    lemma_script_outcome(action, path, state, BuildStage::PreInstall, 0);
    lemma_script_outcome(
        with_package_files(action, move_targets(state.moves)),
        path,
        state,
        BuildStage::PostInstall,
        0,
    );
}

/// A command that does not succeed fails the build with that command, its
/// exit code and what it wrote to standard error; no further command is
/// handed out.
pub proof fn lemma_failed_command_stops(
    action: ActionView,
    path: Seq<char>,
    state: BuildStateView,
    code: Option<i32>,
    stdout: Seq<char>,
    stderr: Seq<char>,
)
    requires
        runs_script(state.stage),
        stage_fits(action, state.stage),
        state.index < script(action, state.stage).len(),
    ensures
        build_next(
            action,
            path,
            state,
            BuildEventView::Exited { success: false, code, stdout, stderr },
        ).result == Err::<BuildStepView, BuildFailure>(
            exit_failure(
                script(action, state.stage)[state.index as int],
                false,
                code,
                stderr,
            )->Some_0,
        ),
        build_next(
            action,
            path,
            state,
            BuildEventView::Exited { success: false, code, stdout, stderr },
        ).state.stage is Failed,
{
}

/// After a command that succeeded, the next command of the same script is
/// handed out, to run in the same directory; the commands of a script run in
/// the order in which the script lists them.
pub proof fn lemma_commands_in_order(
    action: ActionView,
    path: Seq<char>,
    state: BuildStateView,
    code: Option<i32>,
    stdout: Seq<char>,
    stderr: Seq<char>,
)
    requires
        runs_script(state.stage),
        stage_fits(action, state.stage),
        state.index + 1 < script(action, state.stage).len(),
    ensures
        match command_line(script(action, state.stage)[state.index as int + 1]) {
            Ok(line) => {
                &&& build_next(
                    action,
                    path,
                    state,
                    BuildEventView::Exited { success: true, code, stdout, stderr },
                ).result == Ok::<BuildStepView, BuildFailure>(
                    BuildStepView::RunCommand { line, directory: working_directory(action, path) },
                )
                &&& build_next(
                    action,
                    path,
                    state,
                    BuildEventView::Exited { success: true, code, stdout, stderr },
                ).state == (BuildStateView { index: state.index + 1, ..state })
            },
            Err(failure) => build_next(
                action,
                path,
                state,
                BuildEventView::Exited { success: true, code, stdout, stderr },
            ).result == Err::<BuildStepView, BuildFailure>(failure),
        },
{
}

/// The files of a package change at one point of its build only: when the
/// moves are reported as done, the targets of the moves become the
/// package's files. Every other call leaves the action as it was.
pub proof fn lemma_files_recorded_after_move(
    action: ActionView,
    path: Seq<char>,
    state: BuildStateView,
    event: BuildEventView,
)
    ensures
        build_next(action, path, state, event).action == (if state.stage is Move && judge(
            action,
            state,
            event,
        ) is None {
            with_package_files(action, move_targets(state.moves))
        } else {
            action
        }),
{
    lemma_script_outcome(action, path, state, state.stage, state.index + 1);
    lemma_script_outcome(action, path, state, BuildStage::PreRemove, 0);
    lemma_script_outcome(action, path, state, BuildStage::PostRemove, 0);
    lemma_script_outcome(action, path, state, BuildStage::PreInstall, 0);
    lemma_script_outcome(
        with_package_files(action, move_targets(state.moves)),
        path,
        state,
        BuildStage::PostInstall,
        0,
    );
}

/// A removal deletes the files of its package and no others: the step that
/// follows the last command of `pre_remove` is the deletion of exactly the
/// paths that the package lists.
pub proof fn lemma_removal_deletes_package_files(
    action: ActionView,
    path: Seq<char>,
    state: BuildStateView,
    index: nat,
)
    requires
        action is Remove,
        index >= script(action, BuildStage::PreRemove).len(),
    ensures
        run_script(action, path, state, BuildStage::PreRemove, index).result == Ok::<
            BuildStepView,
            BuildFailure,
        >(BuildStepView::DeleteFiles { paths: action->Remove_0.package_files }),
{
}

/// The place of a stage in the build of an action: the stages of an
/// installation and those of a removal, each in the order in which they
/// come.
pub open spec fn stage_order(stage: BuildStage) -> nat {
    match stage {
        BuildStage::Start => 0,
        BuildStage::Prepare => 1,
        BuildStage::PreInstall => 2,
        BuildStage::Install => 3,
        BuildStage::Scan => 4,
        BuildStage::Move => 5,
        BuildStage::PostInstall => 6,
        BuildStage::PreRemove => 2,
        BuildStage::Delete => 3,
        BuildStage::PostRemove => 4,
        BuildStage::Finished => 7,
        BuildStage::Failed => 8,
    }
}

/// Whether the build leaves nothing out between the two stages: every stage
/// of the action that lies between them runs a script, and that script is
/// empty.
pub open spec fn nothing_between(action: ActionView, from: BuildStage, to: BuildStage) -> bool {
    forall|stage: BuildStage|
        stage_fits(action, stage) && stage_order(from) < #[trigger] stage_order(stage)
            < stage_order(to) ==> runs_script(stage) && script(action, stage).len() == 0
}

/// Going on with a script leads to its command at `index`, or, where it has
/// none there, to the next stage that has something to do.
proof fn lemma_script_leads_on(
    action: ActionView,
    path: Seq<char>,
    state: BuildStateView,
    stage: BuildStage,
    index: nat,
)
    requires
        runs_script(stage),
        stage_fits(action, stage),
        run_script(action, path, state, stage, index).result is Ok,
    ensures
        stage_fits(action, run_script(action, path, state, stage, index).state.stage),
        index < script(action, stage).len() ==> run_script(
            action,
            path,
            state,
            stage,
            index,
        ).state.stage == stage && run_script(action, path, state, stage, index).state.index
            == index,
        index >= script(action, stage).len() ==> stage_order(stage) < stage_order(
            run_script(action, path, state, stage, index).state.stage,
        ) && nothing_between(
            action,
            stage,
            run_script(action, path, state, stage, index).state.stage,
        ),
    decreases (if stage is PreInstall { 1nat } else { 0nat }),
{
    if index >= script(action, stage).len() && stage is PreInstall {
        lemma_script_leads_on(action, path, state, BuildStage::Install, 0);
    }
}

/// Going on with the script of the stage that follows `from` leads to a
/// later stage and leaves nothing out on the way.
proof fn lemma_leads_from(
    action: ActionView,
    path: Seq<char>,
    state: BuildStateView,
    from: BuildStage,
    first: BuildStage,
)
    requires
        runs_script(first),
        stage_fits(action, first),
        stage_fits(action, from),
        stage_order(first) == stage_order(from) + 1,
        run_script(action, path, state, first, 0).result is Ok,
    ensures
        stage_fits(action, run_script(action, path, state, first, 0).state.stage),
        stage_order(from) < stage_order(run_script(action, path, state, first, 0).state.stage),
        nothing_between(action, from, run_script(action, path, state, first, 0).state.stage),
{
    lemma_script_leads_on(action, path, state, first, 0);
    let to = run_script(action, path, state, first, 0).state.stage;
    assert forall|stage: BuildStage|
        stage_fits(action, stage) && stage_order(from) < #[trigger] stage_order(stage)
            < stage_order(to) implies runs_script(stage) && script(action, stage).len() == 0 by {
        if stage_order(stage) == stage_order(first) {
            assert(stage == first);
        }
    }
}

/// The stages of a build come in their order, and none is left out: a step
/// that is handed out belongs to the stage under way (the next command of
/// its script, or the next directory to read), or to a later stage, and
/// then the script under way has run to its end and the stages between run
/// scripts that are empty.
pub proof fn lemma_stages_in_order(
    action: ActionView,
    path: Seq<char>,
    state: BuildStateView,
    event: BuildEventView,
)
    requires
        build_next(action, path, state, event).result is Ok,
    ensures
        stage_fits(action, state.stage),
        stage_fits(action, build_next(action, path, state, event).state.stage),
        stage_order(state.stage) <= stage_order(
            build_next(action, path, state, event).state.stage,
        ),
        build_next(action, path, state, event).state.stage == state.stage ==> {
            ||| state.stage is Scan
            ||| runs_script(state.stage) && build_next(action, path, state, event).state.index
                == state.index + 1
        },
        build_next(action, path, state, event).state.stage != state.stage ==> {
            &&& nothing_between(
                build_next(action, path, state, event).action,
                state.stage,
                build_next(action, path, state, event).state.stage,
            )
            &&& runs_script(state.stage) ==> state.index + 1 == script(
                action,
                state.stage,
            ).len()
        },
{
    let filed = with_package_files(action, move_targets(state.moves));
    let to = build_next(action, path, state, event).state.stage;
    lemma_files_recorded_after_move(action, path, state, event);
    match state.stage {
        BuildStage::Start => {
            if action is Remove {
                assert(stage_order(BuildStage::PreRemove) == 2);
                lemma_script_leads_on(action, path, state, BuildStage::PreRemove, 0);
                assert forall|stage: BuildStage|
                    stage_fits(action, stage) && stage_order(state.stage) < #[trigger] stage_order(
                        stage,
                    ) < stage_order(to) implies runs_script(stage) && script(action, stage).len()
                    == 0 by {
                    if stage_order(stage) == 2 {
                        assert(stage == BuildStage::PreRemove);
                    }
                    if stage_order(stage) == 1 {
                        assert(stage is Prepare);
                    }
                }
            }
        },
        BuildStage::Prepare => {
            lemma_leads_from(action, path, state, state.stage, BuildStage::PreInstall);
        },
        BuildStage::Scan => {
            assert(to is Scan || to is Move);
        },
        BuildStage::Move => {
            lemma_leads_from(filed, path, state, state.stage, BuildStage::PostInstall);
        },
        BuildStage::Delete => {
            lemma_leads_from(action, path, state, state.stage, BuildStage::PostRemove);
        },
        BuildStage::Finished | BuildStage::Failed => {},
        _ => {
            lemma_script_leads_on(action, path, state, state.stage, state.index + 1);
        },
    }
}

} // verus!
