//! The arguments of `run` and what follows from them alone.

use crate::paths::Components;
use vstd::prelude::*;
use vstd::string::*;

verus! {

/// The revisions that are run on when none are given.
pub const DEFAULT_REVISIONS: &'static str = "reachable(@, mutable())";

/// A revision argument, not yet resolved.
#[derive(Debug, PartialEq, Eq)]
pub struct RevisionArg {
    pub text: String,
}

impl Clone for RevisionArg {
    fn clone(&self) -> (copy: RevisionArg)
        ensures
            copy == *self,
    {
        RevisionArg { text: self.text.clone() }
    }
}

/// Run a command across a set of revisions.
///
/// Checks out each revision in an isolated working copy, runs the command, then
/// amends the revision with the resulting working copy. Descendants are rebased
/// on top of the amended revisions.
///
/// The command is executed with the following environment variables set:
///
/// - JJ_CHANGE_ID
/// - JJ_COMMIT_ID
#[derive(Debug, PartialEq, Eq)]
pub struct RunArgs {
    /// The command to run across all selected revisions.
    pub shell_command: String,
    /// The revisions to change.
    pub revisions: Vec<RevisionArg>,
    /// A no-op option to match the interface of `git rebase -x`.
    pub exec_flag: bool,
    /// How many processes should run in parallel, uses by default all cores.
    pub jobs: Option<usize>,
    /// Run the command from the working-copy root in each commit instead of
    /// from the subdirectory that `run` was invoked from.
    pub root: bool,
}

impl Clone for RunArgs {
    fn clone(&self) -> (copy: RunArgs)
        ensures
            copy.shell_command == self.shell_command,
            copy.revisions@ == self.revisions@,
            copy.exec_flag == self.exec_flag,
            copy.jobs == self.jobs,
            copy.root == self.root,
    {
        let mut revisions: Vec<RevisionArg> = Vec::new();
        let mut i: usize = 0;
        while i < self.revisions.len()
            invariant
                i <= self.revisions@.len(),
                revisions@ == self.revisions@.take(i as int),
            decreases self.revisions@.len() - i,
        {
            revisions.push(self.revisions[i].clone());
            i = i + 1;
        }
        assert(revisions@ =~= self.revisions@);
        RunArgs {
            shell_command: self.shell_command.clone(),
            revisions,
            exec_flag: self.exec_flag,
            jobs: self.jobs,
            root: self.root,
        }
    }
}

/// How many processes run in parallel: the number asked for if it is above
/// zero, else the number of cores if it is known, else one.
pub open spec fn effective_jobs(requested: Option<usize>, cores: Option<usize>) -> usize {
    match requested {
        Some(n) if n > 0 => n,
        _ => match cores {
            Some(n) => n,
            None => 1,
        },
    }
}

/// Settles how many processes run in parallel, which is at least one. A known
/// number of cores is never zero.
pub fn resolve_jobs(requested: Option<usize>, cores: Option<usize>) -> (jobs: usize)
    requires
        cores != Some(0usize),
    ensures
        jobs == effective_jobs(requested, cores),
        jobs >= 1,
        requested is Some && requested->0 >= 1 ==> jobs == requested->0,
{
    let settled = match requested {
        Some(0) | None => cores,
        Some(n) => Some(n),
    };
    match settled {
        Some(n) => n,
        None => 1,
    }
}

/// The directory, relative to the root of the working copy, from which the
/// command runs: none with `root`, else the part of `cwd` below
/// `workspace_root`, and none where `cwd` does not lie below it.
pub open spec fn subdir_of(root: bool, cwd: Seq<Seq<u8>>, workspace_root: Seq<Seq<u8>>) -> Seq<
    Seq<u8>,
> {
    if !root && workspace_root.is_prefix_of(cwd) {
        cwd.skip(workspace_root.len() as int)
    } else {
        Seq::empty()
    }
}

impl RunArgs {
    /// The directory, relative to the root of each working copy, from which
    /// the command runs when `run` is invoked from `cwd`.
    pub fn subdir(&self, cwd: &Components, workspace_root: &Components) -> (subdir: Components)
        ensures
            subdir@ == subdir_of(self.root, cwd@, workspace_root@),
    {
        if !self.root && cwd.starts_with(workspace_root) {
            cwd.without_first(workspace_root.parts.len())
        } else {
            let none: Vec<Vec<u8>> = Vec::new();
            let subdir = Components { parts: none };
            assert(subdir@ =~= Seq::<Seq<u8>>::empty());
            subdir
        }
    }
}

/// Invoked from below the workspace root, the command runs in the directory of
/// each working copy that lies below its root as the invoker's directory lies
/// below the workspace root.
pub proof fn law_subdir_below_workspace(below: Seq<Seq<u8>>, workspace_root: Seq<Seq<u8>>)
    ensures
        subdir_of(false, workspace_root + below, workspace_root) == below,
{
    let cwd = workspace_root + below;
    assert(workspace_root =~= cwd.subrange(0, workspace_root.len() as int));
    assert(cwd.skip(workspace_root.len() as int) =~= below);
}

/// With `--root` the command runs at the root of each working copy, wherever
/// `run` was invoked from.
pub proof fn law_root_flag(cwd: Seq<Seq<u8>>, workspace_root: Seq<Seq<u8>>)
    ensures
        subdir_of(true, cwd, workspace_root).len() == 0,
{
}

/// A number of jobs above zero that was asked for is what counts, however many
/// cores there are.
pub proof fn law_requested_jobs_count(n: usize, cores: Option<usize>)
    requires
        n >= 1,
    ensures
        effective_jobs(Some(n), cores) == n,
{
}

/// Without a number that was asked for, or with zero, there is one job per core,
/// and a single one if the number of cores is not known.
pub proof fn law_cores_count_otherwise(requested: Option<usize>, cores: Option<usize>)
    requires
        requested is None || requested == Some(0usize),
    ensures
        cores matches Some(n) ==> effective_jobs(requested, cores) == n,
        cores is None ==> effective_jobs(requested, cores) == 1,
{
}

/// Invoked from outside the workspace, the command runs at the root of each working
/// copy.
pub proof fn law_subdir_outside_workspace(
    root: bool,
    cwd: Seq<Seq<u8>>,
    workspace_root: Seq<Seq<u8>>,
)
    requires
        cwd.len() < workspace_root.len() || exists|i: int|
            0 <= i < workspace_root.len() && #[trigger] cwd[i] != workspace_root[i],
    ensures
        subdir_of(root, cwd, workspace_root).len() == 0,
{
    if workspace_root.is_prefix_of(cwd) && cwd.len() >= workspace_root.len() {
        let i = choose|i: int| 0 <= i < workspace_root.len() && #[trigger] cwd[i]
            != workspace_root[i];
        assert(cwd.subrange(0, workspace_root.len() as int)[i] == cwd[i]);
    }
}

} // verus!
