//! One cycle of mirror tasks: what each task does, where it stands, and
//! when the cycle is over.

use crate::git::{clone_mirror_invocation, git_clone_mirror, git_mirror_update};
use crate::git::{mirror_update_invocation, GitInvocation, GitInvocationView};
use crate::repo::{dedup_by_url, dedup_repos, lemma_dedup_by_url, repo_views, RepoInfo};
use crate::repo::RepoInfoView;
use vstd::prelude::*;

verus! {

/// Where the task of one repository stands within a cycle.
#[derive(Clone, Copy, Debug, PartialEq, Eq, Structural)]
pub enum TaskState {
    /// Not started; nothing is known about the mirror yet.
    Waiting,
    /// Started, and no mirror was found.
    NotCloned,
    /// The first clone is running.
    Cloning,
    /// A mirror is there and current as far as this cycle goes.
    Mirrored,
    /// The refresh of an existing mirror is running.
    Updating,
    /// The git invocation failed; nothing more happens in this cycle.
    Failed,
}

/// What has to happen to the folder that will hold a mirror.
#[derive(Clone, Copy, Debug, PartialEq, Eq, Structural)]
pub enum FolderAction {
    /// It does not exist: create it with all its ancestors.
    Create,
    /// It is a directory already.
    Keep,
    /// Something else has its name; no mirror can go there.
    NotADirectory,
}

/// A mirror task failed in its git invocation.
#[derive(Clone, Debug, PartialEq)]
pub struct MirrorExecutionError {
    pub url: String,
    pub reason: String,
}

impl TaskState {
    /// The state that the look at the file system implies.
    pub open spec fn probed(repo_exists: bool) -> TaskState {
        if repo_exists {
            TaskState::Mirrored
        } else {
            TaskState::NotCloned
        }
    }

    /// The state once the git invocation runs.
    pub open spec fn started(self) -> TaskState {
        match self {
            TaskState::NotCloned => TaskState::Cloning,
            TaskState::Mirrored => TaskState::Updating,
            other => other,
        }
    }

    /// The state once the git invocation ended.
    pub open spec fn ended(self, success: bool) -> TaskState {
        match self {
            TaskState::Cloning | TaskState::Updating => if success {
                TaskState::Mirrored
            } else {
                TaskState::Failed
            },
            other => other,
        }
    }

    /// A git invocation is running.
    pub open spec fn running(self) -> bool {
        self == TaskState::Cloning || self == TaskState::Updating
    }

    /// Nothing more happens to the task in this cycle.
    pub open spec fn settled(self) -> bool {
        self == TaskState::Mirrored || self == TaskState::Failed
    }

    /// Whether a git invocation is running.
    pub fn is_running(self) -> (running: bool)
        ensures
            running == self.running(),
    {
        match self {
            TaskState::Cloning | TaskState::Updating => true,
            _ => false,
        }
    }

    /// The state that the look at the file system implies.
    pub fn probe(repo_exists: bool) -> (state: TaskState)
        ensures
            state == TaskState::probed(repo_exists),
    {
        if repo_exists {
            TaskState::Mirrored
        } else {
            TaskState::NotCloned
        }
    }

    /// The state once the git invocation runs.
    pub fn start(self) -> (state: TaskState)
        ensures
            state == self.started(),
    {
        match self {
            TaskState::NotCloned => TaskState::Cloning,
            TaskState::Mirrored => TaskState::Updating,
            other => other,
        }
    }

    /// The state once the git invocation ended.
    pub fn end(self, success: bool) -> (state: TaskState)
        ensures
            state == self.ended(success),
    {
        match self {
            TaskState::Cloning | TaskState::Updating => if success {
                TaskState::Mirrored
            } else {
                TaskState::Failed
            },
            other => other,
        }
    }
}

/// What has to happen to a folder: it is created when nothing has its
/// name, kept when that is a directory, and unusable otherwise.
pub open spec fn folder_action(exists: bool, is_dir: bool) -> FolderAction {
    if !exists {
        FolderAction::Create
    } else if is_dir {
        FolderAction::Keep
    } else {
        FolderAction::NotADirectory
    }
}

/// What has to happen to a folder, given whether something has its name and
/// whether that is a directory.
pub fn folder_handler(exists: bool, is_dir: bool) -> (action: FolderAction)
    ensures
        action == folder_action(exists, is_dir),
{
    if !exists {
        FolderAction::Create
    } else if is_dir {
        FolderAction::Keep
    } else {
        FolderAction::NotADirectory
    }
}

/// The invocation a repository needs: the refresh, run in the mirror, when
/// the mirror exists; the first clone, run in its folder, when it does not.
pub open spec fn planned_invocation(repo: RepoInfoView, repo_exists: bool) -> GitInvocationView {
    if repo_exists {
        mirror_update_invocation(repo.local_repo_path)
    } else {
        clone_mirror_invocation(repo.url, repo.local_folder_path)
    }
}

/// Chooses the git invocation for a repository from whether its mirror exists.
pub fn plan_mirror(repo: &RepoInfo, repo_exists: bool) -> (invocation: GitInvocation)
    ensures
        invocation@ == planned_invocation(repo@, repo_exists),
{
    if repo_exists {
        git_mirror_update(&repo.local_repo_path)
    } else {
        git_clone_mirror(repo.url.as_str(), &repo.local_folder_path)
    }
}

/// No two descriptors have the same remote.
pub open spec fn distinct_urls(repos: Seq<RepoInfoView>) -> bool {
    forall|a: int, b: int| 0 <= a < b < repos.len() ==> repos[a].url != repos[b].url
}

/// No two running tasks work on the same mirror.
pub open spec fn no_running_clash(repos: Seq<RepoInfoView>, states: Seq<TaskState>) -> bool {
    forall|a: int, b: int|
        0 <= a < b < repos.len() && states[a].running() && states[b].running()
            ==> repos[a].local_repo_path != repos[b].local_repo_path
}

/// Every task is settled.
pub open spec fn all_settled(states: Seq<TaskState>) -> bool {
    forall|i: int| 0 <= i < states.len() ==> (#[trigger] states[i]).settled()
}

/// The tasks of one cycle and the failures reported so far.
pub struct Cycle {
    pub repos: Vec<RepoInfo>,
    pub states: Vec<TaskState>,
    pub failures: Vec<MirrorExecutionError>,
}

impl Cycle {
    /// There is one state per repository, no remote occurs twice, and no
    /// two running tasks work on the same mirror.
    pub open spec fn wf(&self) -> bool {
        &&& self.states@.len() == self.repos@.len()
        &&& distinct_urls(repo_views(self.repos@))
        &&& no_running_clash(repo_views(self.repos@), self.states@)
    }

    /// Another task is running on the mirror of the task at `index`.
    pub open spec fn blocked(&self, index: int) -> bool {
        exists|j: int|
            0 <= j < self.states@.len() && j != index && (#[trigger] self.states@[j]).running()
                && self.repos@[j].local_repo_path@ == self.repos@[index].local_repo_path@
    }

    /// Whether another task is running on the mirror of the task at `index`.
    pub fn is_blocked(&self, index: usize) -> (blocked: bool)
        requires
            self.states@.len() == self.repos@.len(),
            index < self.repos@.len(),
        ensures
            blocked == self.blocked(index as int),
    {
        let mut j: usize = 0;
        while j < self.repos.len()
            invariant
                j <= self.repos.len(),
                self.states@.len() == self.repos@.len(),
                index < self.repos@.len(),
                forall|k: int|
                    0 <= k < j && k != index && (#[trigger] self.states@[k]).running()
                        ==> self.repos@[k].local_repo_path@ != self.repos@[index as int].local_repo_path@,
            decreases self.repos.len() - j,
        {
            if j != index && self.states[j].is_running() && self.repos[j].local_repo_path
                == self.repos[index].local_repo_path {
                proof {
                    assert(self.states@[j as int].running());
                }
                return true;
            }
            j += 1;
        }
        false
    }

    /// The cycle is over: every task is settled.
    pub open spec fn complete(&self) -> bool {
        all_settled(self.states@)
    }

    /// Tests `wf` on a value that was put together by hand.
    pub fn is_wf(&self) -> (ok: bool)
        ensures
            ok == self.wf(),
    {
        if self.states.len() != self.repos.len() {
            return false;
        }
        let ghost views = repo_views(self.repos@);
        let mut b: usize = 0;
        while b < self.repos.len()
            invariant
                b <= self.repos.len(),
                views == repo_views(self.repos@),
                self.states@.len() == self.repos@.len(),
                forall|i: int, j: int| 0 <= i < j < b ==> views[i].url != views[j].url,
                forall|i: int, j: int|
                    0 <= i < j < b && self.states@[i].running() && self.states@[j].running()
                        ==> views[i].local_repo_path != views[j].local_repo_path,
            decreases self.repos.len() - b,
        {
            let mut a: usize = 0;
            while a < b
                invariant
                    a <= b < self.repos.len(),
                    views == repo_views(self.repos@),
                    self.states@.len() == self.repos@.len(),
                    forall|i: int| 0 <= i < a ==> views[i].url != views[b as int].url,
                    forall|i: int|
                        0 <= i < a && self.states@[i].running() && self.states@[b as int].running()
                            ==> views[i].local_repo_path != views[b as int].local_repo_path,
                decreases b - a,
            {
                if self.repos[a].url == self.repos[b].url {
                    proof {
                        assert(views[a as int].url == views[b as int].url);
                    }
                    return false;
                }
                if self.states[a].is_running() && self.states[b].is_running()
                    && self.repos[a].local_repo_path == self.repos[b].local_repo_path {
                    proof {
                        assert(views[a as int].local_repo_path == views[b as int].local_repo_path);
                    }
                    return false;
                }
                a += 1;
            }
            b += 1;
        }
        true
    }

    /// A cycle over `repos`, each remote once, with every task waiting.
    pub fn new(repos: &Vec<RepoInfo>) -> (cycle: Cycle)
        ensures
            cycle.wf(),
            repo_views(cycle.repos@) == dedup_by_url(repo_views(repos@)),
            forall|i: int| 0 <= i < cycle.states@.len() ==> cycle.states@[i] == TaskState::Waiting,
            cycle.failures@.len() == 0,
    {
        let unique = dedup_repos(repos);
        proof {
            lemma_dedup_by_url(repo_views(repos@));
        }
        let mut states: Vec<TaskState> = Vec::new();
        let mut i: usize = 0;
        while i < unique.len()
            invariant
                i <= unique.len(),
                states@.len() == i,
                forall|k: int| 0 <= k < i ==> states@[k] == TaskState::Waiting,
            decreases unique.len() - i,
        {
            states.push(TaskState::Waiting);
            i += 1;
        }
        Cycle { repos: unique, states, failures: Vec::new() }
    }

    /// Starts the task at `index`, given whether its mirror exists, and
    /// hands out the git invocation to run. A task that does not exist or
    /// was started before is left alone, and so is one whose mirror another
    /// task is working on: it can be started once that task has ended.
    pub fn start_task(&mut self, index: usize, repo_exists: bool) -> (invocation: Option<
        GitInvocation,
    >)
        requires
            old(self).wf(),
        ensures
            final(self).wf(),
            final(self).repos == old(self).repos,
            final(self).failures == old(self).failures,
            invocation is Some <==> index < old(self).states@.len() && old(self).states@[index as int]
                == TaskState::Waiting && !old(self).blocked(index as int),
            invocation matches Some(run) ==> {
                &&& run@ == planned_invocation(old(self).repos@[index as int]@, repo_exists)
                &&& final(self).states@ == old(self).states@.update(
                    index as int,
                    TaskState::probed(repo_exists).started(),
                )
            },
            invocation is None ==> final(self).states == old(self).states,
    {
        if index >= self.states.len() {
            return None;
        }
        match self.states[index] {
            TaskState::Waiting => {
                if self.is_blocked(index) {
                    return None;
                }
                let invocation = plan_mirror(&self.repos[index], repo_exists);
                let ghost before = self.states@;
                self.states.set(index, TaskState::probe(repo_exists).start());
                proof {
                    let views = repo_views(self.repos@);
                    assert forall|a: int, b: int|
                        0 <= a < b < views.len() && self.states@[a].running()
                            && self.states@[b].running() implies views[a].local_repo_path
                        != views[b].local_repo_path by {
                        if a == index {
                            assert(before[b].running());
                        } else if b == index {
                            assert(before[a].running());
                        } else {
                            assert(before[a].running() && before[b].running());
                        }
                    }
                }
                Some(invocation)
            },
            _ => None,
        }
    }

    /// Takes the outcome of the git invocation of the task at `index`. A
    /// failure is added to the report. A task that is not running is left
    /// alone.
    pub fn finish_task(&mut self, index: usize, outcome: Result<(), String>)
        requires
            old(self).wf(),
        ensures
            final(self).wf(),
            final(self).repos == old(self).repos,
            index < old(self).states@.len() && old(self).states@[index as int].running() ==> {
                &&& final(self).states@ == old(self).states@.update(
                    index as int,
                    old(self).states@[index as int].ended(outcome is Ok),
                )
                &&& match outcome {
                    Ok(_) => final(self).failures == old(self).failures,
                    Err(reason) => final(self).failures@.len() == old(self).failures@.len() + 1
                        && final(self).failures@.subrange(0, old(self).failures@.len() as int)
                        == old(self).failures@ && final(self).failures@.last().reason == reason
                        && final(self).failures@.last().url@ == old(self).repos@[index as int].url@,
                }
            },
            !(index < old(self).states@.len() && old(self).states@[index as int].running())
                ==> final(self).states == old(self).states && final(self).failures == old(
                self,
            ).failures,
    {
        if index >= self.states.len() {
            return ;
        }
        let state = self.states[index];
        match state {
            TaskState::Cloning | TaskState::Updating => {
                match outcome {
                    Ok(_) => {
                        self.states.set(index, state.end(true));
                    },
                    Err(reason) => {
                        self.states.set(index, state.end(false));
                        let ghost before = self.failures@;
                        self.failures.push(
                            MirrorExecutionError { url: self.repos[index].url.clone(), reason },
                        );
                        proof {
                            assert(self.failures@.subrange(0, before.len() as int) =~= before);
                        }
                    },
                }
            },
            _ => {},
        }
    }

    /// Moves on to the cycle over `repos`, which is allowed only once every
    /// task of this one is settled; until then this cycle is handed back
    /// as it is.
    pub fn next_cycle(self, repos: &Vec<RepoInfo>) -> (next: Result<Cycle, Cycle>)
        requires
            self.wf(),
        ensures
            next is Ok <==> self.complete(),
            next matches Ok(cycle) ==> {
                &&& cycle.wf()
                &&& repo_views(cycle.repos@) == dedup_by_url(repo_views(repos@))
                &&& forall|i: int|
                    0 <= i < cycle.states@.len() ==> cycle.states@[i] == TaskState::Waiting
                &&& cycle.failures@.len() == 0
            },
            next matches Err(cycle) ==> cycle == self,
    {
        if self.is_complete() {
            Ok(Cycle::new(repos))
        } else {
            Err(self)
        }
    }

    /// Whether every task is settled. Only then may the pause begin and
    /// the next cycle follow.
    pub fn is_complete(&self) -> (done: bool)
        requires
            self.wf(),
        ensures
            done == self.complete(),
    {
        let mut i: usize = 0;
        while i < self.states.len()
            invariant
                i <= self.states.len(),
                forall|k: int| 0 <= k < i ==> (#[trigger] self.states@[k]).settled(),
            decreases self.states.len() - i,
        {
            match self.states[i] {
                TaskState::Mirrored | TaskState::Failed => {},
                _ => {
                    return false;
                },
            }
            i += 1;
        }
        true
    }
}

/// Within a cycle no two tasks work on the same remote.
pub proof fn lemma_tasks_have_distinct_remotes(cycle: Cycle, a: int, b: int)
    requires
        cycle.wf(),
        0 <= a < cycle.repos@.len(),
        0 <= b < cycle.repos@.len(),
        a != b,
    ensures
        cycle.repos@[a].url@ != cycle.repos@[b].url@,
{
    let views = repo_views(cycle.repos@);
    if a < b {
        assert(views[a].url != views[b].url);
    } else {
        assert(views[b].url != views[a].url);
    }
}

/// At no time do two running tasks of a cycle work on the same mirror.
pub proof fn lemma_running_tasks_have_distinct_mirrors(cycle: Cycle, a: int, b: int)
    requires
        cycle.wf(),
        0 <= a < cycle.repos@.len(),
        0 <= b < cycle.repos@.len(),
        a != b,
        cycle.states@[a].running(),
        cycle.states@[b].running(),
    ensures
        cycle.repos@[a].local_repo_path@ != cycle.repos@[b].local_repo_path@,
{
    let views = repo_views(cycle.repos@);
    if a < b {
        assert(views[a].local_repo_path != views[b].local_repo_path);
    } else {
        assert(views[b].local_repo_path != views[a].local_repo_path);
    }
}

/// While nothing runs, nothing is held back: every waiting task can be
/// started once the running ones have ended.
pub proof fn lemma_idle_cycle_blocks_nothing(cycle: Cycle, index: int)
    requires
        forall|j: int| 0 <= j < cycle.states@.len() ==> !(#[trigger] cycle.states@[j]).running(),
    ensures
        !cycle.blocked(index),
{
}

/// Each task is started at most once in a cycle: starting it gives it a
/// state that no later start accepts, and ending it does not bring it back.
pub proof fn lemma_started_task_stays_started(probe: bool, success: bool)
    ensures
        TaskState::probed(probe).started() != TaskState::Waiting,
        TaskState::probed(probe).started().running(),
        TaskState::probed(probe).started().ended(success) != TaskState::Waiting,
        TaskState::probed(probe).started().ended(success).settled(),
{
}

/// A task invokes the first clone exactly when no mirror was found, and the
/// refresh exactly when one was; it never does the other.
pub proof fn lemma_probe_decides_operation(repo: RepoInfoView, repo_exists: bool)
    ensures
        !repo_exists ==> planned_invocation(repo, repo_exists) == clone_mirror_invocation(
            repo.url,
            repo.local_folder_path,
        ) && TaskState::probed(repo_exists).started() == TaskState::Cloning,
        repo_exists ==> planned_invocation(repo, repo_exists) == mirror_update_invocation(
            repo.local_repo_path,
        ) && TaskState::probed(repo_exists).started() == TaskState::Updating,
        clone_mirror_invocation(repo.url, repo.local_folder_path).args
            != mirror_update_invocation(repo.local_repo_path).args,
{
    assert(clone_mirror_invocation(repo.url, repo.local_folder_path).args.len() == 3);
    assert(mirror_update_invocation(repo.local_repo_path).args.len() == 2);
}

} // verus!
