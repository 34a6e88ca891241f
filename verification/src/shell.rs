//! The shell that runs the command, and how it is called.

use crate::ids::{hex_of, reverse_hex_of, ChangeId, CommitId};
use crate::layout::RunPath;
use crate::paths::Components;
use vstd::prelude::*;
use vstd::string::*;

verus! {

/// The shell to execute in and its first argument.
pub open spec fn shell(windows: bool) -> (Seq<char>, Seq<char>) {
    if windows {
        ("cmd"@, "/c"@)
    } else {
        ("/bin/sh"@, "-c"@)
    }
}

/// Get the shell to execute in and its first argument, on Windows or elsewhere.
pub fn get_shell_executable_with_first_arg(windows: bool) -> (shell_and_arg: (
    &'static str,
    &'static str,
))
    ensures
        (shell_and_arg.0@, shell_and_arg.1@) == shell(windows),
{
    if windows {
        ("cmd", "/c")
    } else {
        ("/bin/sh", "-c")
    }
}

/// A directory of a checked-out commit.
#[derive(Debug, PartialEq, Eq)]
pub struct ExecDir {
    /// The working copy that the commit is checked out in.
    pub working_copy: RunPath,
    /// The directory inside it.
    pub subdir: Components,
}

/// Which directory an `ExecDir` is.
pub struct ExecDirView {
    pub working_copy: Seq<Seq<char>>,
    pub subdir: Seq<Seq<u8>>,
}

impl View for ExecDir {
    type V = ExecDirView;

    open spec fn view(&self) -> ExecDirView {
        ExecDirView { working_copy: self.working_copy@, subdir: self.subdir@ }
    }
}

/// What a standard stream of a program is.
#[derive(Clone, Copy, Debug, PartialEq, Eq)]
pub enum Stdio {
    /// Always at its end.
    Null,
    /// Captured in full.
    Piped,
}

/// A program to run to its end.
#[derive(Debug, PartialEq, Eq)]
pub struct CommandLine {
    pub program: String,
    pub args: Vec<String>,
    pub current_dir: ExecDir,
    /// The variables that are set in addition to the inherited ones.
    pub env: Vec<(String, String)>,
    pub stdin: Stdio,
    pub stdout: Stdio,
    pub stderr: Stdio,
    /// Whether the program is killed when its job is given up.
    pub kill_on_drop: bool,
}

/// What a `CommandLine` says.
pub struct CommandLineView {
    pub program: Seq<char>,
    pub args: Seq<Seq<char>>,
    pub current_dir: ExecDirView,
    pub env: Seq<(Seq<char>, Seq<char>)>,
    pub stdin: Stdio,
    pub stdout: Stdio,
    pub stderr: Stdio,
    pub kill_on_drop: bool,
}

impl View for CommandLine {
    type V = CommandLineView;

    open spec fn view(&self) -> CommandLineView {
        CommandLineView {
            program: self.program@,
            args: self.args@.map_values(|arg: String| arg@),
            current_dir: self.current_dir@,
            env: self.env@.map_values(|var: (String, String)| (var.0@, var.1@)),
            stdin: self.stdin,
            stdout: self.stdout,
            stderr: self.stderr,
            kill_on_drop: self.kill_on_drop,
        }
    }
}

/// The call that runs `command` in `dir` on the commit with these ids.
pub open spec fn command_line_of(
    windows: bool,
    command: Seq<char>,
    dir: ExecDirView,
    id: Seq<u8>,
    change_id: Seq<u8>,
) -> CommandLineView {
    CommandLineView {
        program: shell(windows).0,
        args: seq![shell(windows).1, command],
        current_dir: dir,
        env: seq![
            ("JJ_CHANGE_ID"@, reverse_hex_of(change_id)),
            ("JJ_COMMIT_ID"@, hex_of(id)),
        ],
        stdin: Stdio::Null,
        stdout: Stdio::Piped,
        stderr: Stdio::Piped,
        kill_on_drop: true,
    }
}

/// Makes the call that runs `command` in `dir` on the commit with these ids.
pub fn command_line(
    windows: bool,
    command: &String,
    dir: ExecDir,
    id: &CommitId,
    change_id: &ChangeId,
) -> (line: CommandLine)
    ensures
        line@ == command_line_of(windows, command@, dir@, id@, change_id@),
{
    let (program, first_arg) = get_shell_executable_with_first_arg(windows);
    let mut args: Vec<String> = Vec::new();
    args.push(first_arg.to_owned());
    args.push(command.clone());
    let mut env: Vec<(String, String)> = Vec::new();
    env.push(("JJ_CHANGE_ID".to_owned(), change_id.reverse_hex()));
    env.push(("JJ_COMMIT_ID".to_owned(), id.hex()));
    let line = CommandLine {
        program: program.to_owned(),
        args,
        current_dir: dir,
        env,
        stdin: Stdio::Null,
        stdout: Stdio::Piped,
        stderr: Stdio::Piped,
        kill_on_drop: true,
    };
    proof {
        let expected = command_line_of(windows, command@, dir@, id@, change_id@);
        assert(line@.args =~= expected.args);
        assert(line@.env =~= expected.env);
    }
    line
}

/// A command is called as one argument, behind the one that makes the shell of the
/// platform take it as a command; in the directory that is given; with the ids of the
/// commit and of its change, and no other variables; with nothing to read, and with
/// what it writes captured.
pub proof fn law_command_is_one_argument(
    windows: bool,
    command: Seq<char>,
    dir: ExecDirView,
    id: Seq<u8>,
    change_id: Seq<u8>,
)
    ensures
        shell(true) == ("cmd"@, "/c"@),
        shell(false) == ("/bin/sh"@, "-c"@),
        ({
            let line = command_line_of(windows, command, dir, id, change_id);
            &&& (line.program, line.args[0]) == shell(windows)
            &&& line.args.len() == 2 && line.args[1] == command
            &&& line.current_dir == dir
            &&& line.env.len() == 2
            &&& line.env[0] == ("JJ_CHANGE_ID"@, reverse_hex_of(change_id))
            &&& line.env[1] == ("JJ_COMMIT_ID"@, hex_of(id))
            &&& line.stdin == Stdio::Null
            &&& line.stdout == Stdio::Piped && line.stderr == Stdio::Piped
            &&& line.kill_on_drop
        }),
{
}

/// Command lines that say the same are the same in every part.
pub proof fn law_command_line_says_all(a: CommandLine, b: CommandLine, i: int)
    requires
        a@ == b@,
    ensures
        a.program@ == b.program@,
        a.args@.len() == b.args@.len(),
        0 <= i < a.args@.len() ==> a.args@[i]@ == b.args@[i]@,
        a.env@.len() == b.env@.len(),
        0 <= i < a.env@.len() ==> a.env@[i].0@ == b.env@[i].0@ && a.env@[i].1@ == b.env@[i].1@,
        a.current_dir.working_copy@ == b.current_dir.working_copy@,
        a.current_dir.subdir@ == b.current_dir.subdir@,
        a.stdin == b.stdin && a.stdout == b.stdout && a.stderr == b.stderr,
        a.kill_on_drop == b.kill_on_drop,
{
    assert(a@.args.len() == a.args@.len() && b@.args.len() == b.args@.len());
    assert(a@.env.len() == a.env@.len() && b@.env.len() == b.env@.len());
    if 0 <= i < a.args@.len() {
        assert(a@.args[i] == a.args@[i]@ && b@.args[i] == b.args@[i]@);
    }
    if 0 <= i < a.env@.len() {
        assert(a@.env[i] == (a.env@[i].0@, a.env@[i].1@));
        assert(b@.env[i] == (b.env@[i].0@, b.env@[i].1@));
    }
}

} // verus!
