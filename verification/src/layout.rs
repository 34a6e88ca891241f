//! Where the working copies of a run live.

use crate::ids::{hex_of, law_hex_injective, CommitId};
use crate::paths::Components;
use vstd::prelude::*;
use vstd::string::*;
use vstd::utf8::{
    decode_utf8, encode_utf8, encode_utf8_decode_utf8, encode_utf8_valid_utf8, valid_utf8,
};

verus! {

/// A path below the directory that holds the repository's own directory, as
/// the names that lead to it.
#[derive(Debug, PartialEq, Eq)]
pub struct RunPath {
    pub names: Vec<String>,
}

impl View for RunPath {
    type V = Seq<Seq<char>>;

    open spec fn view(&self) -> Seq<Seq<char>> {
        self.names@.map_values(|name: String| name@)
    }
}

impl Clone for RunPath {
    fn clone(&self) -> (copy: RunPath)
        ensures
            copy@ == self@,
    {
        let mut names: Vec<String> = Vec::new();
        let mut i: usize = 0;
        while i < self.names.len()
            invariant
                i <= self.names@.len(),
                names@ == self.names@.take(i as int),
            decreases self.names@.len() - i,
        {
            names.push(self.names[i].clone());
            i = i + 1;
        }
        assert(names@ =~= self.names@);
        RunPath { names }
    }
}

impl RunPath {
    /// The path of `name` inside this directory.
    pub fn join(&self, name: &str) -> (path: RunPath)
        ensures
            path@ == self@.push(name@),
    {
        let mut path = self.clone();
        path.names.push(name.to_owned());
        assert(path@ =~= self@.push(name@));
        path
    }
}

/// `names` as components of a path.
pub open spec fn name_bytes(names: Seq<Seq<char>>) -> Seq<Seq<u8>> {
    names.map_values(|name: Seq<char>| encode_utf8(name))
}

impl RunPath {
    /// Where this path is in the file system, if the repository's own directory
    /// is `repo_path`, the first `anchor` components of which are the platform's
    /// own part of it. It is nowhere if no directory holds that of the
    /// repository.
    pub fn resolve(&self, repo_path: &Components, anchor: usize) -> (path: Option<Components>)
        ensures
            match path {
                Some(p) => repo_path@.len() > anchor && p@ == repo_path@.drop_last() + name_bytes(
                    self@,
                ),
                None => repo_path@.len() <= anchor,
            },
    {
        let mut path = match repo_path.parent(anchor) {
            Some(holder) => holder,
            None => return None,
        };
        let ghost holder = path@;
        let ghost all = name_bytes(self@);
        let mut i: usize = 0;
        assert(path@ =~= holder + all.take(0));
        while i < self.names.len()
            invariant
                i <= self.names@.len(),
                all == name_bytes(self@),
                path@ == holder + all.take(i as int),
            decreases self.names@.len() - i,
        {
            path.push(self.names[i].as_str().as_bytes_vec());
            proof {
                assert(all[i as int] == encode_utf8(self.names@[i as int]@));
                assert(all.take(i + 1) =~= all.take(i as int).push(all[i as int]));
                assert(path@ =~= holder + all.take(i + 1));
            }
            i = i + 1;
        }
        assert(all.take(i as int) =~= all);
        Some(path)
    }
}

/// The directory below which each working copy of a run lives.
pub open spec fn base_names() -> Seq<Seq<char>> {
    seq!["run"@, "default"@]
}

/// The directory of the commit `id`.
pub open spec fn commit_names(id: Seq<u8>) -> Seq<Seq<char>> {
    base_names().push(hex_of(id))
}

/// The working copy of the commit `id`.
pub open spec fn working_copy_names(id: Seq<u8>) -> Seq<Seq<char>> {
    commit_names(id).push("working_copy"@)
}

/// The state directory of the working copy of the commit `id`.
pub open spec fn state_names(id: Seq<u8>) -> Seq<Seq<char>> {
    commit_names(id).push("state"@)
}

/// The directory below which each working copy of a run lives. It lies beside
/// the repository's own directory, not inside it.
pub fn base_path() -> (path: RunPath)
    ensures
        path@ == base_names(),
{
    let none: Vec<String> = Vec::new();
    let top = RunPath { names: none };
    assert(top@ =~= Seq::<Seq<char>>::empty());
    let path = top.join("run").join("default");
    assert(path@ =~= base_names());
    path
}

/// The first of the two names of the base directory, as a component of a path.
pub open spec fn run_bytes() -> Seq<u8> {
    encode_utf8("run"@)
}

/// The second.
pub open spec fn default_bytes() -> Seq<u8> {
    encode_utf8("default"@)
}

/// Where the base directory is in the file system, if the repository's own
/// directory is `repo_path`: in the directory that holds it. The first `anchor`
/// components of `repo_path` are the platform's own part of it: the root
/// directory, and on Windows the prefix before it. If there is nothing else, no
/// directory holds that of the repository, and there is no base directory.
pub fn base_dir(repo_path: &Components, anchor: usize) -> (base: Option<Components>)
    ensures
        match base {
            Some(b) => repo_path@.len() > anchor && b@ == repo_path@.drop_last() + seq![
                run_bytes(),
                default_bytes(),
            ],
            None => repo_path@.len() <= anchor,
        },
{
    let base = base_path().resolve(repo_path, anchor);
    assert(name_bytes(base_names()) =~= seq![run_bytes(), default_bytes()]);
    base
}

/// The directory of one commit, named by its id so that concurrent jobs do not
/// collide and so that it is the same across runs.
pub fn commit_path(id: &CommitId) -> (path: RunPath)
    ensures
        path@ == commit_names(id@),
{
    base_path().join(id.hex().as_str())
}

/// The working copy in a commit's directory and the state that belongs to it.
pub fn create_working_copy_paths(path: &RunPath) -> (paths: (RunPath, RunPath))
    ensures
        paths.0@ == path@.push("working_copy"@),
        paths.1@ == path@.push("state"@),
{
    (path.join("working_copy"), path.join("state"))
}

/// Everything that a run writes for a commit lies below the base directory.
pub proof fn law_below_base(id: Seq<u8>)
    ensures
        base_names().is_prefix_of(commit_names(id)),
        commit_names(id).is_prefix_of(working_copy_names(id)),
        commit_names(id).is_prefix_of(state_names(id)),
{
    assert(base_names() =~= commit_names(id).subrange(0, base_names().len() as int));
    assert(commit_names(id) =~= working_copy_names(id).subrange(0, commit_names(id).len() as int));
    assert(commit_names(id) =~= state_names(id).subrange(0, commit_names(id).len() as int));
}

/// Nothing of the layout lies in the repository's own directory, unless that
/// directory is itself named `run`.
pub proof fn law_beside_repository(repo_path: Seq<Seq<u8>>, names: Seq<Seq<char>>)
    requires
        repo_path.len() > 0,
        repo_path.last() != run_bytes(),
        base_names().is_prefix_of(names),
    ensures
        !repo_path.is_prefix_of(repo_path.drop_last() + name_bytes(names)),
{
    let path = repo_path.drop_last() + name_bytes(names);
    let last = repo_path.len() - 1;
    assert(base_names()[0] == names[0]);
    assert(path[last] == name_bytes(names)[0]);
    if repo_path.is_prefix_of(path) {
        assert(repo_path[last] == path[last]);
    }
}

/// Different paths of the layout are different paths of the file system.
pub proof fn law_resolve_injective(
    holder: Seq<Seq<u8>>,
    a: Seq<Seq<char>>,
    b: Seq<Seq<char>>,
)
    requires
        holder + name_bytes(a) == holder + name_bytes(b),
    ensures
        a == b,
{
    let whole = holder + name_bytes(a);
    assert(whole.len() == holder.len() + a.len());
    assert((holder + name_bytes(b)).len() == holder.len() + b.len());
    assert forall|i: int| 0 <= i < a.len() implies a[i] == b[i] by {
        assert(whole[holder.len() + i] == encode_utf8(a[i]));
        assert((holder + name_bytes(b))[holder.len() + i] == encode_utf8(b[i]));
        encode_utf8_decode_utf8(a[i]);
        encode_utf8_decode_utf8(b[i]);
    }
    assert(a =~= b);
}

/// The directories of two commits have nothing in common: no path lies below
/// both.
pub proof fn law_commits_apart(a: Seq<u8>, b: Seq<u8>, path: Seq<Seq<char>>)
    requires
        commit_names(a).is_prefix_of(path),
        commit_names(b).is_prefix_of(path),
    ensures
        a == b,
{
    assert(commit_names(a)[2] == path[2]);
    assert(commit_names(b)[2] == path[2]);
    law_hex_injective(a, b);
}

/// No path lies below both the working copy of a commit and its state
/// directory, so the command never sees the state.
pub proof fn law_state_apart(id: Seq<u8>, path: Seq<Seq<char>>)
    requires
        working_copy_names(id).is_prefix_of(path),
    ensures
        !state_names(id).is_prefix_of(path),
{
    reveal_strlit("working_copy");
    reveal_strlit("state");
    assert(working_copy_names(id)[3] == path[3]);
    assert("working_copy"@.len() != "state"@.len());
    if state_names(id).is_prefix_of(path) {
        assert(state_names(id)[3] == path[3]);
    }
}

/// The directory of a commit is the one named by its id in the directory `default`
/// of the directory `run`, and its working copy and the state of that lie in it.
pub proof fn law_names_of_a_commit(id: Seq<u8>)
    ensures
        base_names() == seq!["run"@, "default"@],
        commit_names(id) == seq!["run"@, "default"@, hex_of(id)],
        working_copy_names(id) == seq!["run"@, "default"@, hex_of(id), "working_copy"@],
        state_names(id) == seq!["run"@, "default"@, hex_of(id), "state"@],
{
    assert(commit_names(id) =~= seq!["run"@, "default"@, hex_of(id)]);
    assert(working_copy_names(id) =~= seq!["run"@, "default"@, hex_of(id), "working_copy"@]);
    assert(state_names(id) =~= seq!["run"@, "default"@, hex_of(id), "state"@]);
}

/// The components of a path of the layout encode its names, one for one.
pub proof fn law_names_are_encoded(names: Seq<Seq<char>>)
    ensures
        name_bytes(names).len() == names.len(),
        forall|i: int|
            0 <= i < names.len() ==> {
                &&& valid_utf8(#[trigger] name_bytes(names)[i])
                &&& decode_utf8(name_bytes(names)[i]) == names[i]
            },
        name_bytes(base_names()) == seq![run_bytes(), default_bytes()],
{
    assert forall|i: int| 0 <= i < names.len() implies {
        &&& valid_utf8(#[trigger] name_bytes(names)[i])
        &&& decode_utf8(name_bytes(names)[i]) == names[i]
    } by {
        encode_utf8_valid_utf8(names[i]);
        encode_utf8_decode_utf8(names[i]);
    }
    assert(name_bytes(base_names()) =~= seq![run_bytes(), default_bytes()]);
}

/// A path of the layout is its names, one for one.
pub proof fn law_path_is_its_names(path: RunPath, i: int)
    ensures
        path@.len() == path.names@.len(),
        0 <= i < path.names@.len() ==> path@[i] == path.names@[i]@,
{
}

} // verus!
