//! What can go wrong in a run.

use crate::ids::{hex_of, CommitId};
use crate::layout::{name_bytes, RunPath};
use crate::paths::{shown_from, utf8_is_kept, Components};
use vstd::prelude::*;
use vstd::string::*;

verus! {

/// A failure of one of the jobs of a run. `E` is the failure of the file
/// system, the backend or the runtime that stands behind it.
#[derive(Debug)]
pub enum RunError<E> {
    /// The commit could not be checked out.
    FailedCheckout(CommitId),
    /// The command, how it ended, and the commit it ran on.
    CommandFailure(String, String, CommitId),
    /// The command could not be run, or the base directory not be created.
    IoError(E),
    /// The path that could not be made.
    PathCreationFailure(RunPath, E),
    /// The state of the working copy could not be set up.
    TreeState(E),
    /// The new tree could not be loaded.
    Backend(E),
    /// The job itself broke down.
    JobFailure(E),
}

/// What a `RunError` says.
pub enum RunErrorView<E> {
    FailedCheckout(Seq<u8>),
    CommandFailure(Seq<char>, Seq<char>, Seq<u8>),
    IoError(E),
    PathCreationFailure(Seq<Seq<char>>, E),
    TreeState(E),
    Backend(E),
    JobFailure(E),
}

impl<E> View for RunError<E> {
    type V = RunErrorView<E>;

    open spec fn view(&self) -> RunErrorView<E> {
        match *self {
            RunError::FailedCheckout(id) => RunErrorView::FailedCheckout(id@),
            RunError::CommandFailure(command, status, id) => RunErrorView::CommandFailure(
                command@,
                status@,
                id@,
            ),
            RunError::IoError(e) => RunErrorView::IoError(e),
            RunError::PathCreationFailure(path, e) => RunErrorView::PathCreationFailure(path@, e),
            RunError::TreeState(e) => RunErrorView::TreeState(e),
            RunError::Backend(e) => RunErrorView::Backend(e),
            RunError::JobFailure(e) => RunErrorView::JobFailure(e),
        }
    }
}

/// The text of an error of a run in a repository with its own directory at
/// `repo_path`, the first `anchor` components of which are the platform's own part
/// of it. `source` is how the failure behind the error is shown.
pub open spec fn error_text<E>(
    error: RunErrorView<E>,
    repo_path: Seq<Seq<u8>>,
    anchor: int,
    windows: bool,
    source: Seq<char>,
) -> Seq<char> {
    match error {
        RunErrorView::FailedCheckout(id) => "failed to checkout the commit "@ + hex_of(id),
        RunErrorView::CommandFailure(command, status, id) => "the command '"@ + command
            + "' failed with "@ + status + " for commit "@ + hex_of(id),
        RunErrorView::PathCreationFailure(path, _) => "failed to create path "@ + shown_from(
            repo_path.drop_last() + name_bytes(path),
            anchor,
            windows,
        ) + " with "@ + source,
        RunErrorView::TreeState(_) => "failed to load a commits tree"@,
        RunErrorView::IoError(_) | RunErrorView::Backend(_) | RunErrorView::JobFailure(_) => source,
    }
}

impl<E> RunError<E> {
    /// The text of the error, in a repository with its own directory at
    /// `repo_path`, the first `anchor` components of which are the platform's own
    /// part of it. `source` is how the failure behind the error is shown; an error
    /// without one ignores it. If no directory holds that of the repository, no
    /// path of the run can have failed.
    pub fn message(
        &self,
        repo_path: &Components,
        anchor: usize,
        windows: bool,
        source: &str,
    ) -> (text: String)
        requires
            self is PathCreationFailure ==> repo_path@.len() > anchor,
        ensures
            text@ == error_text(self@, repo_path@, anchor as int, windows, source@),
            self@ matches RunErrorView::PathCreationFailure(path, _) ==> utf8_is_kept(
                repo_path@.drop_last() + name_bytes(path),
                windows,
            ),
    {
        match self {
            RunError::FailedCheckout(id) => {
                let mut text = "failed to checkout the commit ".to_owned();
                text.append(id.hex().as_str());
                text
            },
            RunError::CommandFailure(command, status, id) => {
                let mut text = "the command '".to_owned();
                text.append(command.as_str());
                text.append("' failed with ");
                text.append(status.as_str());
                text.append(" for commit ");
                text.append(id.hex().as_str());
                text
            },
            RunError::PathCreationFailure(path, _) => {
                let mut text = "failed to create path ".to_owned();
                if let Some(resolved) = path.resolve(repo_path, anchor) {
                    text.append(resolved.show_from(anchor, windows).as_str());
                }
                text.append(" with ");
                text.append(source);
                text
            },
            RunError::TreeState(_) => "failed to load a commits tree".to_owned(),
            RunError::IoError(_) | RunError::Backend(_) | RunError::JobFailure(
                _,
            ) => source.to_owned(),
        }
    }
}

/// How a whole run fails.
#[derive(Debug)]
pub enum CommandError<E> {
    /// The run itself failed.
    Cli(RunError<E>),
    /// Something that the run relies on failed.
    Other(E),
}

/// What a `CommandError` says.
pub enum CommandErrorView<E> {
    Cli(RunErrorView<E>),
    Other(E),
}

impl<E> View for CommandError<E> {
    type V = CommandErrorView<E>;

    open spec fn view(&self) -> CommandErrorView<E> {
        match *self {
            CommandError::Cli(e) => CommandErrorView::Cli(e@),
            CommandError::Other(e) => CommandErrorView::Other(e),
        }
    }
}

impl<E> vstd::std_specs::convert::FromSpecImpl<RunError<E>> for CommandError<E> {
    open spec fn obeys_from_spec() -> bool {
        true
    }

    open spec fn from_spec(value: RunError<E>) -> CommandError<E> {
        CommandError::Cli(value)
    }
}

impl<E> From<RunError<E>> for CommandError<E> {
    fn from(value: RunError<E>) -> (error: CommandError<E>) {
        CommandError::Cli(value)
    }
}

/// The text of a failed run names what failed: the commit, the command with how it
/// ended, or the path where it is in the file system; where something else stands
/// behind the error, that is the text.
pub proof fn law_error_says_what_failed<E>(
    error: RunErrorView<E>,
    repo_path: Seq<Seq<u8>>,
    anchor: int,
    windows: bool,
    source: Seq<char>,
)
    ensures
        ({
            let text = error_text(error, repo_path, anchor, windows, source);
            &&& error matches RunErrorView::FailedCheckout(id) ==> text
                == "failed to checkout the commit "@ + hex_of(id)
            &&& error matches RunErrorView::CommandFailure(command, status, id) ==> text
                == "the command '"@ + command + "' failed with "@ + status + " for commit "@
                + hex_of(id)
            &&& error matches RunErrorView::PathCreationFailure(path, _) ==> text
                == "failed to create path "@ + shown_from(
                repo_path.drop_last() + name_bytes(path),
                anchor,
                windows,
            ) + " with "@ + source
            &&& error is TreeState ==> text == "failed to load a commits tree"@
            &&& error is IoError || error is Backend || error is JobFailure ==> text == source
        }),
{
}

/// An error of the run is an error of the command, and says the same.
pub proof fn law_run_error_is_kept<E>(error: RunError<E>)
    ensures
        <CommandError<E> as vstd::std_specs::convert::FromSpec<RunError<E>>>::from_spec(error)@
            == CommandErrorView::Cli(error@),
{
}

/// An error says which it is, and what is in each of its parts.
pub proof fn law_error_is_said<E>(error: RunError<E>, failure: CommandError<E>)
    ensures
        match error {
            RunError::FailedCheckout(id) => error@ == RunErrorView::<E>::FailedCheckout(id.bytes@),
            RunError::CommandFailure(command, status, id) => error@
                == RunErrorView::<E>::CommandFailure(command@, status@, id.bytes@),
            RunError::IoError(e) => error@ == RunErrorView::IoError(e),
            RunError::PathCreationFailure(path, e) => error@ == RunErrorView::PathCreationFailure(
                path@,
                e,
            ),
            RunError::TreeState(e) => error@ == RunErrorView::TreeState(e),
            RunError::Backend(e) => error@ == RunErrorView::Backend(e),
            RunError::JobFailure(e) => error@ == RunErrorView::JobFailure(e),
        },
        match failure {
            CommandError::Cli(e) => failure@ == CommandErrorView::Cli(e@),
            CommandError::Other(e) => failure@ == CommandErrorView::Other(e),
        },
{
}

} // verus!
