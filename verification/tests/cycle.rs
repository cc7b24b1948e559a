use git_sync::config::{
    get_config_path, get_default_interval, get_default_path, GitSyncConfig, GitSyncConfigRepo,
};
use git_sync::git::{git_clone_mirror, git_command, git_mirror_update, GitInvocation, GitRun};
use git_sync::repo::{get_repos, RepoInfo};
use git_sync::scheduler::{
    folder_handler, plan_mirror, Cycle, FolderAction, MirrorExecutionError, TaskState,
};

fn texts(items: &[&str]) -> Vec<String> {
    items.iter().map(|s| s.to_string()).collect()
}

fn widgets() -> RepoInfo {
    RepoInfo {
        url: "git@github.com:acme/widgets.git".to_string(),
        local_folder_path: "./mirrors/individual/acme".to_string(),
        local_repo_path: "./mirrors/individual/acme/widgets.git".to_string(),
    }
}

fn gears() -> RepoInfo {
    RepoInfo {
        url: "git@github.com:acme/gears.git".to_string(),
        local_folder_path: "./mirrors/individual/acme".to_string(),
        local_repo_path: "./mirrors/individual/acme/gears.git".to_string(),
    }
}

#[test]
fn defaults_are_one_day_and_the_backup_folder() {
    assert_eq!(get_default_interval(), 86400);
    assert_eq!(get_default_path(), "./git-backup-repos");
}

#[test]
fn config_path_comes_from_the_first_flag() {
    assert_eq!(get_config_path(&texts(&["prog"])), "./git_sync_config.yaml");
    assert_eq!(get_config_path(&vec![]), "./git_sync_config.yaml");
    assert_eq!(get_config_path(&texts(&["prog", "--config=/etc/sync.yaml"])), "/etc/sync.yaml");
    assert_eq!(
        get_config_path(&texts(&["prog", "-v", "--config=a.yaml", "--config=b.yaml"])),
        "a.yaml"
    );
    assert_eq!(get_config_path(&texts(&["--config=a=b"])), "a=b");
    assert_eq!(
        get_config_path(&texts(&["prog", "--config=/etc/a=b.yaml"])),
        "/etc/a=b.yaml"
    );
    assert_eq!(get_config_path(&texts(&["--config="])), "");
    assert_eq!(get_config_path(&texts(&["--config", "x--config=y"])), "./git_sync_config.yaml");
}

#[test]
fn clone_runs_in_the_folder_and_update_in_the_mirror() {
    assert_eq!(
        git_clone_mirror("git@github.com:acme/widgets.git", &"./mirrors/individual/acme".to_string()),
        GitInvocation {
            args: texts(&["clone", "--mirror", "git@github.com:acme/widgets.git"]),
            cwd: "./mirrors/individual/acme".to_string(),
        }
    );
    assert_eq!(
        git_mirror_update(&"./mirrors/individual/acme/widgets.git".to_string()),
        GitInvocation {
            args: texts(&["remote", "update"]),
            cwd: "./mirrors/individual/acme/widgets.git".to_string(),
        }
    );
}

#[test]
fn only_a_successful_exit_is_a_success() {
    assert_eq!(git_command(GitRun::Exited { success: true, detail: "ok".to_string() }), Ok(()));
    assert_eq!(
        git_command(GitRun::Exited { success: false, detail: "exit 128".to_string() }),
        Err("Git command failed: exit 128".to_string())
    );
    assert_eq!(
        git_command(GitRun::NotStarted("No such file".to_string())),
        Err("Git command failed: No such file".to_string())
    );
}

#[test]
fn missing_mirror_is_cloned_and_existing_mirror_is_updated() {
    let clone = plan_mirror(&widgets(), false);
    assert_eq!(clone.args, texts(&["clone", "--mirror", "git@github.com:acme/widgets.git"]));
    assert_eq!(clone.cwd, "./mirrors/individual/acme");
    let update = plan_mirror(&widgets(), true);
    assert_eq!(update.args, texts(&["remote", "update"]));
    assert_eq!(update.cwd, "./mirrors/individual/acme/widgets.git");
}

#[test]
fn task_states_follow_the_probe() {
    assert_eq!(TaskState::probe(false), TaskState::NotCloned);
    assert_eq!(TaskState::probe(true), TaskState::Mirrored);
    assert_eq!(TaskState::NotCloned.start(), TaskState::Cloning);
    assert_eq!(TaskState::Mirrored.start(), TaskState::Updating);
    assert_eq!(TaskState::Cloning.end(true), TaskState::Mirrored);
    assert_eq!(TaskState::Cloning.end(false), TaskState::Failed);
    assert_eq!(TaskState::Updating.end(true), TaskState::Mirrored);
    assert_eq!(TaskState::Updating.end(false), TaskState::Failed);
    assert_eq!(TaskState::Failed.start(), TaskState::Failed);
    assert_eq!(TaskState::Failed.end(true), TaskState::Failed);
    assert_eq!(TaskState::Waiting.end(true), TaskState::Waiting);
}

#[test]
fn folder_is_created_only_when_missing() {
    assert_eq!(folder_handler(false, false), FolderAction::Create);
    assert_eq!(folder_handler(false, true), FolderAction::Create);
    assert_eq!(folder_handler(true, true), FolderAction::Keep);
    assert_eq!(folder_handler(true, false), FolderAction::NotADirectory);
}

#[test]
fn first_cycle_clones_and_second_cycle_updates() {
    let config = GitSyncConfig {
        interval: 5,
        path: "./mirrors".to_string(),
        repos: vec![GitSyncConfigRepo { url: "git@github.com:acme/widgets.git".to_string() }],
        owners: vec![],
    };
    let repos = get_repos(&config, &vec![]);
    assert_eq!(repos, vec![widgets()]);

    let mut first = Cycle::new(&repos);
    let run = first.start_task(0, false).unwrap();
    assert_eq!(run.args, texts(&["clone", "--mirror", "git@github.com:acme/widgets.git"]));
    assert_eq!(run.cwd, "./mirrors/individual/acme");
    assert_eq!(first.states, vec![TaskState::Cloning]);
    first.finish_task(0, Ok(()));
    assert_eq!(first.states, vec![TaskState::Mirrored]);

    let mut second = first.next_cycle(&get_repos(&config, &vec![])).ok().unwrap();
    let run = second.start_task(0, true).unwrap();
    assert_eq!(run.args, texts(&["remote", "update"]));
    assert_eq!(run.cwd, "./mirrors/individual/acme/widgets.git");
    assert_eq!(second.states, vec![TaskState::Updating]);
    second.finish_task(0, Ok(()));
    assert!(second.is_complete());
    assert!(second.failures.is_empty());
}

#[test]
fn next_cycle_waits_for_every_task() {
    let mut cycle = Cycle::new(&vec![widgets(), gears()]);
    assert!(!cycle.is_complete());
    assert!(cycle.start_task(0, true).is_some());
    assert!(cycle.start_task(1, false).is_some());
    cycle.finish_task(0, Ok(()));
    assert!(!cycle.is_complete());
    let mut cycle = match cycle.next_cycle(&vec![widgets()]) {
        Ok(_) => panic!("a task is still running"),
        Err(same) => same,
    };
    assert_eq!(cycle.states, vec![TaskState::Mirrored, TaskState::Cloning]);
    cycle.finish_task(1, Err("Git command failed: exit 1".to_string()));
    assert!(cycle.is_complete());
    assert!(cycle.next_cycle(&vec![widgets()]).is_ok());
}

#[test]
fn failure_is_reported_and_leaves_the_other_tasks_alone() {
    let mut cycle = Cycle::new(&vec![widgets(), gears()]);
    cycle.start_task(0, false);
    cycle.start_task(1, true);
    cycle.finish_task(0, Err("Git command failed: exit 128".to_string()));
    assert_eq!(cycle.states, vec![TaskState::Failed, TaskState::Updating]);
    cycle.finish_task(1, Ok(()));
    assert_eq!(cycle.states, vec![TaskState::Failed, TaskState::Mirrored]);
    assert_eq!(
        cycle.failures,
        vec![MirrorExecutionError {
            url: "git@github.com:acme/widgets.git".to_string(),
            reason: "Git command failed: exit 128".to_string(),
        }]
    );
}

#[test]
fn task_is_started_once_and_finished_once() {
    let mut cycle = Cycle::new(&vec![widgets()]);
    cycle.finish_task(0, Err("early".to_string()));
    assert_eq!(cycle.states, vec![TaskState::Waiting]);
    assert!(cycle.failures.is_empty());
    assert!(cycle.start_task(0, false).is_some());
    assert!(cycle.start_task(0, false).is_none());
    assert!(cycle.start_task(1, false).is_none());
    cycle.finish_task(0, Ok(()));
    cycle.finish_task(0, Err("late".to_string()));
    cycle.finish_task(7, Err("nobody".to_string()));
    assert_eq!(cycle.states, vec![TaskState::Mirrored]);
    assert!(cycle.failures.is_empty());
}

#[test]
fn cycle_holds_each_remote_once() {
    let cycle = Cycle::new(&vec![widgets(), gears(), widgets()]);
    assert_eq!(cycle.repos, vec![widgets(), gears()]);
    assert_eq!(cycle.states, vec![TaskState::Waiting, TaskState::Waiting]);
}

fn widgets_elsewhere() -> RepoInfo {
    RepoInfo { url: "git@gitlab.com:acme/widgets.git".to_string(), ..widgets() }
}

#[test]
fn tasks_on_one_mirror_run_one_after_the_other() {
    let mut cycle = Cycle::new(&vec![widgets(), widgets_elsewhere(), gears()]);
    assert_eq!(cycle.repos.len(), 3);
    assert!(cycle.start_task(0, true).is_some());
    assert!(cycle.is_blocked(1));
    assert!(!cycle.is_blocked(2));
    assert!(cycle.start_task(1, true).is_none());
    assert!(cycle.start_task(2, true).is_some());
    assert_eq!(
        cycle.states,
        vec![TaskState::Updating, TaskState::Waiting, TaskState::Updating]
    );
    assert!(cycle.is_wf());
    cycle.finish_task(0, Ok(()));
    cycle.finish_task(2, Ok(()));
    assert!(!cycle.is_complete());
    assert!(!cycle.is_blocked(1));
    let run = cycle.start_task(1, true).unwrap();
    assert_eq!(run.cwd, "./mirrors/individual/acme/widgets.git");
    cycle.finish_task(1, Ok(()));
    assert!(cycle.is_complete());
}

#[test]
fn cycle_put_together_by_hand_is_tested() {
    let good = Cycle {
        repos: vec![widgets(), widgets_elsewhere()],
        states: vec![TaskState::Updating, TaskState::Waiting],
        failures: vec![],
    };
    assert!(good.is_wf());
    let clash = Cycle {
        repos: vec![widgets(), widgets_elsewhere()],
        states: vec![TaskState::Updating, TaskState::Cloning],
        failures: vec![],
    };
    assert!(!clash.is_wf());
    let twice = Cycle {
        repos: vec![widgets(), widgets()],
        states: vec![TaskState::Waiting, TaskState::Waiting],
        failures: vec![],
    };
    assert!(!twice.is_wf());
    let short = Cycle { repos: vec![widgets()], states: vec![], failures: vec![] };
    assert!(!short.is_wf());
}
