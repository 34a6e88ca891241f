# jj_run

`run` executes a shell command on each of a set of commits. Every commit is
checked out in a working copy of its own; the command runs there, and the commit
is amended with what it left behind. Descendants are rebased. If the command
fails on any commit, nothing is rewritten.

The library in `src/` makes the decisions and is verified with Verus:

- `command`: a whole run, from the commits that were asked for to the transaction
  that amends them; `command_laws`: what holds of every run.
- `dispatch`: the jobs of a run, started and waited for, at most so many at a time.
- `job`: one job, from an empty directory to the recorded tree; `job_laws`: what
  holds of every job.
- `args`, `shell`, `layout`, `paths`, `ids`, `rewrites`, `text`, `error`: the
  arguments and what follows from them, how the shell is called, where the working
  copies live, paths and how they are shown, identifiers and their hexadecimal
  forms, the new trees, numbers, and errors.

The three machines share one pattern: `action` says what is to be done next, and
a step takes the machine on with what came of it. Failures of the outside world
are carried through as values of a type parameter.

One thing is trusted: that `String::from_utf8_lossy`, with which paths are shown,
decodes what is UTF-8 and depends on the bytes alone. What a path shows as rests on
it, and nothing else.

`app/` performs the actions: the file system, processes, channels and the command
line. It reaches the repository through the traits in `app/host.rs`.

`tests/` runs the parts one by one, and whole runs on a repository that is kept in
memory.
