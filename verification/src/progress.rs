//! Progress counters: for each kind of work how much is to do and how much
//! is done. They are reported; nothing is decided by them.

use vstd::prelude::*;

verus! {

/// The kinds of work that progress is counted for.
#[derive(Debug, Clone, Copy, PartialEq, Eq)]
pub enum ProgressType {
    Setup,
    Packages,
    ActionsBuild,
    ActionsCommit,
}

/// The two counters of one kind of work.
#[derive(Debug, Clone, Copy, PartialEq, Eq)]
pub struct ProgressGroup {
    pub completed: i32,
    pub target: i32,
}

impl ProgressGroup {
    /// Nothing to do and nothing done.
    pub fn new() -> (group: ProgressGroup)
        ensures
            group.completed == 0,
            group.target == 0,
    {
        ProgressGroup { completed: 0, target: 0 }
    }
}

/// A receiver of progress counts.
pub trait Progress: Sized {
    /// The counters of one kind of work. Where an implementation does not
    /// say, they are some counters that its state stands for.
    open spec fn group(&self, progress_type: ProgressType) -> ProgressGroup {
        arbitrary::<spec_fn(Self, ProgressType) -> ProgressGroup>()(*self, progress_type)
    }

    /// Adds `amount` to what is to do of one kind of work.
    fn increment_target(&mut self, progress_type: ProgressType, amount: i32)
        requires
            i32::MIN <= old(self).group(progress_type).target + amount <= i32::MAX,
        ensures
            final(self).group(progress_type).target == old(self).group(progress_type).target
                + amount,
            final(self).group(progress_type).completed == old(self).group(
                progress_type,
            ).completed,
            forall|other: ProgressType|
                other != progress_type ==> final(self).group(other) == old(self).group(other),
    ;

    /// Adds `amount` to what is done of one kind of work.
    fn increment_completed(&mut self, progress_type: ProgressType, amount: i32)
        requires
            i32::MIN <= old(self).group(progress_type).completed + amount <= i32::MAX,
        ensures
            final(self).group(progress_type).completed == old(self).group(
                progress_type,
            ).completed + amount,
            final(self).group(progress_type).target == old(self).group(progress_type).target,
            forall|other: ProgressType|
                other != progress_type ==> final(self).group(other) == old(self).group(other),
    ;

    /// Marks one kind of work as done in full: one of one.
    fn set_completed(&mut self, progress_type: ProgressType)
        ensures
            final(self).group(progress_type) == (ProgressGroup { completed: 1, target: 1 }),
            forall|other: ProgressType|
                other != progress_type ==> final(self).group(other) == old(self).group(other),
    ;
}

/// The progress counters that a frontend shows, one group for each kind of
/// work.
#[derive(Debug, Clone, Copy, PartialEq, Eq)]
pub struct FrontendProgress {
    setup: ProgressGroup,
    packages: ProgressGroup,
    actions_build: ProgressGroup,
    actions_commit: ProgressGroup,
}

impl FrontendProgress {
    /// Counters that are all zero.
    pub fn new() -> (progress: FrontendProgress)
        ensures
            forall|progress_type: ProgressType|
                progress.group(progress_type) == (ProgressGroup { completed: 0, target: 0 }),
    {
        FrontendProgress {
            setup: ProgressGroup::new(),
            packages: ProgressGroup::new(),
            actions_build: ProgressGroup::new(),
            actions_commit: ProgressGroup::new(),
        }
    }

    /// The counters of one kind of work.
    pub fn progress_group(&self, progress_type: ProgressType) -> (group: ProgressGroup)
        ensures
            group == self.group(progress_type),
    {
        match progress_type {
            ProgressType::Setup => self.setup,
            ProgressType::Packages => self.packages,
            ProgressType::ActionsBuild => self.actions_build,
            ProgressType::ActionsCommit => self.actions_commit,
        }
    }

    /// Puts `group` in the place of the counters of one kind of work.
    fn store(&mut self, progress_type: ProgressType, group: ProgressGroup)
        ensures
            final(self).group(progress_type) == group,
            forall|other: ProgressType|
                other != progress_type ==> final(self).group(other) == old(self).group(other),
    {
        match progress_type {
            ProgressType::Setup => {
                self.setup = group;
            },
            ProgressType::Packages => {
                self.packages = group;
            },
            ProgressType::ActionsBuild => {
                self.actions_build = group;
            },
            ProgressType::ActionsCommit => {
                self.actions_commit = group;
            },
        }
    }
}

impl Progress for FrontendProgress {
    closed spec fn group(&self, progress_type: ProgressType) -> ProgressGroup {
        match progress_type {
            ProgressType::Setup => self.setup,
            ProgressType::Packages => self.packages,
            ProgressType::ActionsBuild => self.actions_build,
            ProgressType::ActionsCommit => self.actions_commit,
        }
    }

    fn increment_target(&mut self, progress_type: ProgressType, amount: i32) {
        let group = self.progress_group(progress_type);
        self.store(
            progress_type,
            ProgressGroup { completed: group.completed, target: group.target + amount },
        );
    }

    fn increment_completed(&mut self, progress_type: ProgressType, amount: i32) {
        let group = self.progress_group(progress_type);
        self.store(
            progress_type,
            ProgressGroup { completed: group.completed + amount, target: group.target },
        );
    }

    fn set_completed(&mut self, progress_type: ProgressType) {
        self.store(progress_type, ProgressGroup { completed: 1, target: 1 });
    }
}

} // verus!
