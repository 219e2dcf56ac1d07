//! The external programs a cycle runs, as plain descriptions: which
//! program, with which arguments, and where.

use vstd::prelude::*;
use vstd::string::*;

use crate::text::texts_of;

verus! {

/// One run of an external program. Its output is discarded; only the exit
/// code is looked at.
#[derive(Debug, PartialEq, Eq)]
pub struct Invocation {
    /// Path of the program.
    pub program: String,
    /// The arguments, in order.
    pub arguments: Vec<String>,
    /// The directory to run in; `None` for the daemon's own.
    pub directory: Option<String>,
}

/// [`Invocation`] over mathematical values.
pub struct InvocationModel {
    pub program: Seq<char>,
    pub arguments: Seq<Seq<char>>,
    pub directory: Option<Seq<char>>,
}

impl View for Invocation {
    type V = InvocationModel;

    open spec fn view(&self) -> InvocationModel {
        InvocationModel {
            program: self.program@,
            arguments: texts_of(self.arguments@),
            directory: match self.directory {
                Some(directory) => Some(directory@),
                None => None,
            },
        }
    }
}

/// Path of the git program.
pub open spec fn git_program() -> Seq<char> {
    "/usr/bin/git"@
}

/// The arguments that point git at a repository: its metadata directory
/// and its working tree.
pub open spec fn git_location(git_dir: Seq<char>, work_tree: Seq<char>) -> Seq<Seq<char>> {
    seq!["--git-dir"@, git_dir, "--work-tree"@, work_tree]
}

/// `git fetch` against a repository.
pub open spec fn fetch_model(git_dir: Seq<char>, work_tree: Seq<char>) -> InvocationModel {
    InvocationModel {
        program: git_program(),
        arguments: git_location(git_dir, work_tree).push("fetch"@),
        directory: None,
    }
}

/// The remote-tracking name of a branch: `origin/` and the branch.
pub open spec fn remote_branch(branch: Seq<char>) -> Seq<char> {
    "origin/"@ + branch
}

/// `git reset --hard origin/<branch>` against a repository.
pub open spec fn reset_hard_model(
    git_dir: Seq<char>,
    work_tree: Seq<char>,
    branch: Seq<char>,
) -> InvocationModel {
    InvocationModel {
        program: git_program(),
        arguments: git_location(git_dir, work_tree).push("reset"@).push("--hard"@).push(
            remote_branch(branch),
        ),
        directory: None,
    }
}

/// A release build, run by the build tool in the working tree.
pub open spec fn rebuild_model(cargo_path: Seq<char>, work_tree: Seq<char>) -> InvocationModel {
    InvocationModel {
        program: cargo_path,
        arguments: seq!["build"@, "--release"@],
        directory: Some(work_tree),
    }
}

/// Where the build leaves its binaries, as path components below the
/// working tree.
pub open spec fn artifacts_path() -> Seq<Seq<char>> {
    seq!["target"@, "release"@]
}

/// The arguments that point git at a repository.
fn git_arguments(git_dir: &str, work_tree: &str) -> (arguments: Vec<String>)
    ensures
        texts_of(arguments@) == git_location(git_dir@, work_tree@),
{
    let mut arguments: Vec<String> = Vec::new();
    arguments.push(String::from_str("--git-dir"));
    arguments.push(String::from_str(git_dir));
    arguments.push(String::from_str("--work-tree"));
    arguments.push(String::from_str(work_tree));
    assert(texts_of(arguments@) =~= git_location(git_dir@, work_tree@));
    arguments
}

/// The run of git that updates the remote-tracking refs of a repository.
pub fn fetch(git_dir: &str, work_tree: &str) -> (invocation: Invocation)
    ensures
        invocation@ == fetch_model(git_dir@, work_tree@),
{
    let mut arguments = git_arguments(git_dir, work_tree);
    let ghost location = arguments@;
    arguments.push(String::from_str("fetch"));
    assert(texts_of(arguments@) =~= texts_of(location).push("fetch"@));
    Invocation { program: String::from_str("/usr/bin/git"), arguments, directory: None }
}

/// The run of git that forces working tree and index to the tip of the
/// remote branch, discarding local changes.
pub fn reset_hard(git_dir: &str, work_tree: &str, branch: &str) -> (invocation: Invocation)
    ensures
        invocation@ == reset_hard_model(git_dir@, work_tree@, branch@),
{
    let mut arguments = git_arguments(git_dir, work_tree);
    let ghost location = arguments@;
    arguments.push(String::from_str("reset"));
    arguments.push(String::from_str("--hard"));
    arguments.push(String::from_str("origin/").concat(branch));
    assert(texts_of(arguments@) =~= texts_of(location).push("reset"@).push("--hard"@).push(
        remote_branch(branch@),
    ));
    Invocation { program: String::from_str("/usr/bin/git"), arguments, directory: None }
}

/// The run of the build tool that rebuilds every binary of a working tree
/// in release mode.
pub fn rebuild(cargo_path: &str, work_tree: &str) -> (invocation: Invocation)
    ensures
        invocation@ == rebuild_model(cargo_path@, work_tree@),
{
    let mut arguments: Vec<String> = Vec::new();
    arguments.push(String::from_str("build"));
    arguments.push(String::from_str("--release"));
    assert(texts_of(arguments@) =~= seq!["build"@, "--release"@]);
    Invocation {
        program: String::from_str(cargo_path),
        arguments,
        directory: Some(String::from_str(work_tree)),
    }
}

/// Where the build leaves its binaries, as path components below the
/// working tree.
pub fn artifacts_directory() -> (components: Vec<String>)
    ensures
        texts_of(components@) == artifacts_path(),
{
    let mut components: Vec<String> = Vec::new();
    components.push(String::from_str("target"));
    components.push(String::from_str("release"));
    assert(texts_of(components@) =~= artifacts_path());
    components
}

} // verus!
