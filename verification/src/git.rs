//! The git invocations that create and refresh a mirror, and what a
//! finished invocation means.

use vstd::prelude::*;
use vstd::string::*;

verus! {

/// One call of the git executable: its arguments and the directory it runs in.
#[derive(Clone, Debug, PartialEq)]
pub struct GitInvocation {
    pub args: Vec<String>,
    pub cwd: String,
}

/// The text of an invocation.
pub struct GitInvocationView {
    pub args: Seq<Seq<char>>,
    pub cwd: Seq<char>,
}

impl View for GitInvocation {
    type V = GitInvocationView;

    open spec fn view(&self) -> GitInvocationView {
        GitInvocationView {
            args: Seq::new(self.args@.len(), |i: int| self.args@[i]@),
            cwd: self.cwd@,
        }
    }
}

/// How a run of the git executable ended: it could not be started, or it
/// exited, successfully or not. The text describes the run.
#[derive(Clone, Debug, PartialEq)]
pub enum GitRun {
    NotStarted(String),
    Exited { success: bool, detail: String },
}

/// The first clone of `url`, run in `folder`.
pub open spec fn clone_mirror_invocation(url: Seq<char>, folder: Seq<char>) -> GitInvocationView {
    GitInvocationView { args: seq!["clone"@, "--mirror"@, url], cwd: folder }
}

/// The refresh of the mirror at `mirror`, run inside it.
pub open spec fn mirror_update_invocation(mirror: Seq<char>) -> GitInvocationView {
    GitInvocationView { args: seq!["remote"@, "update"@], cwd: mirror }
}

/// The run exited successfully.
pub open spec fn succeeded(run: GitRun) -> bool {
    run matches GitRun::Exited { success: true, .. }
}

/// The reason reported for a run that did not succeed.
pub open spec fn failure_reason(run: GitRun) -> Seq<char> {
    match run {
        GitRun::NotStarted(detail) => "Git command failed: "@ + detail@,
        GitRun::Exited { detail, .. } => "Git command failed: "@ + detail@,
    }
}

/// Judges a finished run: only a run that exited successfully is a success;
/// any other is reported with its description.
pub fn git_command(run: GitRun) -> (outcome: Result<(), String>)
    ensures
        outcome is Ok <==> succeeded(run),
        outcome matches Err(reason) ==> reason@ == failure_reason(run),
{
    match run {
        GitRun::NotStarted(detail) => {
            let mut reason = String::from_str("Git command failed: ");
            reason.append(detail.as_str());
            Err(reason)
        },
        GitRun::Exited { success, detail } => {
            if success {
                Ok(())
            } else {
                let mut reason = String::from_str("Git command failed: ");
                reason.append(detail.as_str());
                Err(reason)
            }
        },
    }
}

/// The invocation that mirrors `git_url` for the first time, run in `cwd`.
pub fn git_clone_mirror(git_url: &str, cwd: &String) -> (invocation: GitInvocation)
    ensures
        invocation@ == clone_mirror_invocation(git_url@, cwd@),
{
    let mut args: Vec<String> = Vec::new();
    args.push(String::from_str("clone"));
    args.push(String::from_str("--mirror"));
    args.push(String::from_str(git_url));
    let invocation = GitInvocation { args, cwd: cwd.clone() };
    proof {
        assert(invocation@.args =~= clone_mirror_invocation(git_url@, cwd@).args);
    }
    invocation
}

/// The invocation that refreshes the mirror at `cwd`.
pub fn git_mirror_update(cwd: &String) -> (invocation: GitInvocation)
    ensures
        invocation@ == mirror_update_invocation(cwd@),
{
    let mut args: Vec<String> = Vec::new();
    args.push(String::from_str("remote"));
    args.push(String::from_str("update"));
    let invocation = GitInvocation { args, cwd: cwd.clone() };
    proof {
        assert(invocation@.args =~= mirror_update_invocation(cwd@).args);
    }
    invocation
}

} // verus!
