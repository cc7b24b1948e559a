use git_sync::config::{GitSyncConfig, GitSyncConfigRepo};
use git_sync::providers::individual::{map_remote, matches_ssh_pattern, repo_parser};
use git_sync::providers::shared::{
    add_to_path, find_last, find_parent_folder, get_git_ssh_url_segments, get_parent_folder,
    locate_repo, push_to_path, split_git_ssh_url,
};
use git_sync::repo::{MalformedUrlError, RepoInfo};

fn config_at(path: &str) -> GitSyncConfig {
    GitSyncConfig { interval: 60, path: path.to_string(), repos: vec![], owners: vec![] }
}

fn named(url: &str) -> GitSyncConfigRepo {
    GitSyncConfigRepo { url: url.to_string() }
}

#[test]
fn find_last_gives_the_last_occurrence() {
    assert_eq!(find_last("a:b:c", ':'), Some(3));
    assert_eq!(find_last(":", ':'), Some(0));
    assert_eq!(find_last("abc", ':'), None);
    assert_eq!(find_last("", ':'), None);
    assert_eq!(find_last("é@ü@", '@'), Some(3));
}

#[test]
fn segments_of_a_github_remote() {
    let url = "git@github.com:acme/widgets.git".to_string();
    assert_eq!(
        get_git_ssh_url_segments(&url),
        ("github.com".to_string(), "acme/widgets.git".to_string())
    );
}

#[test]
fn segments_keep_subgroups_in_one_piece() {
    let url = "git@gitlab.com:group/sub/project.git".to_string();
    assert_eq!(
        get_git_ssh_url_segments(&url),
        ("gitlab.com".to_string(), "group/sub/project.git".to_string())
    );
}

#[test]
fn segments_use_the_last_at_and_the_last_colon() {
    assert_eq!(
        split_git_ssh_url("a@b@host:2222:team/repo"),
        Some(("2222".to_string(), "team/repo".to_string()))
    );
    assert_eq!(split_git_ssh_url("host:"), Some(("host".to_string(), String::new())));
    assert_eq!(split_git_ssh_url(":x"), Some((String::new(), "x".to_string())));
}

#[test]
fn a_remote_without_colon_cannot_be_split() {
    assert_eq!(split_git_ssh_url("git@github.com"), None);
    assert_eq!(split_git_ssh_url("a:b@c"), None);
    assert_eq!(split_git_ssh_url(""), None);
}

#[test]
fn push_to_path_puts_one_separator_between() {
    assert_eq!(push_to_path("./mirrors".to_string(), "acme"), "./mirrors/acme");
    assert_eq!(push_to_path("./mirrors/".to_string(), "acme"), "./mirrors/acme");
    assert_eq!(push_to_path(String::new(), "acme"), "acme");
    assert_eq!(push_to_path("./mirrors".to_string(), ""), "./mirrors/");
}

#[test]
fn push_to_path_lets_a_rooted_segment_replace_the_path() {
    assert_eq!(push_to_path("./mirrors".to_string(), "/srv/git"), "/srv/git");
}

#[test]
fn add_to_path_joins_every_segment() {
    let base = "./mirrors".to_string();
    let segments = vec!["individual".to_string(), "acme/widgets.git".to_string()];
    assert_eq!(add_to_path(&base, &segments), "./mirrors/individual/acme/widgets.git");
    assert_eq!(add_to_path(&base, &vec![]), "./mirrors");
}

#[test]
fn parent_folder_is_the_text_before_the_last_separator() {
    let path = "./mirrors/individual/acme/widgets.git".to_string();
    assert_eq!(get_parent_folder(&path), "./mirrors/individual/acme");
    assert_eq!(find_parent_folder("a/b"), Some("a".to_string()));
    assert_eq!(find_parent_folder("/a/b"), Some("/a".to_string()));
}

#[test]
fn parent_folder_at_the_edges() {
    assert_eq!(find_parent_folder("/a"), Some("/".to_string()));
    assert_eq!(find_parent_folder("widgets.git"), Some(String::new()));
    assert_eq!(get_parent_folder(&"widgets.git".to_string()), "");
    assert_eq!(find_parent_folder("/"), None);
    assert_eq!(find_parent_folder(""), None);
}

#[test]
fn static_repo_is_stored_under_individual() {
    let located = repo_parser(&config_at("./mirrors"), &named("git@github.com:acme/widgets.git"));
    assert_eq!(
        located,
        Ok(RepoInfo {
            url: "git@github.com:acme/widgets.git".to_string(),
            local_folder_path: "./mirrors/individual/acme".to_string(),
            local_repo_path: "./mirrors/individual/acme/widgets.git".to_string(),
        })
    );
}

#[test]
fn folder_is_the_parent_of_the_mirror() {
    let base = "/srv/backup".to_string();
    let url = "git@gitlab.com:group/sub/project.git".to_string();
    let info = map_remote(&base, "gitlab_group", &url).unwrap();
    assert_eq!(info.local_repo_path, "/srv/backup/gitlab_group/group/sub/project.git");
    assert_eq!(info.local_folder_path, "/srv/backup/gitlab_group/group/sub");
    assert_eq!(find_parent_folder(&info.local_repo_path), Some(info.local_folder_path.clone()));
}

#[test]
fn mapping_is_the_same_on_every_call() {
    let base = "./mirrors".to_string();
    let first = "git@github.com:acme/widgets.git".to_string();
    let second = "git@github.com:acme/gears.git".to_string();
    let a1 = map_remote(&base, "individual", &first);
    let b1 = map_remote(&base, "individual", &second);
    let b2 = map_remote(&base, "individual", &second);
    let a2 = map_remote(&base, "individual", &first);
    assert_eq!(a1, a2);
    assert_eq!(b1, b2);
    assert_ne!(a1, b1);
}

#[test]
fn https_url_is_refused() {
    let located = repo_parser(&config_at("./mirrors"), &named("https://github.com/acme/widgets"));
    assert_eq!(
        located,
        Err(MalformedUrlError { url: "https://github.com/acme/widgets".to_string() })
    );
}

#[test]
fn remote_without_namespace_is_refused() {
    let base = "./mirrors".to_string();
    for url in ["git@github.com:widgets.git", "git@github.com:acme/", "git@github.com", ""] {
        let url = url.to_string();
        assert_eq!(
            map_remote(&base, "individual", &url),
            Err(MalformedUrlError { url: url.clone() })
        );
    }
}

#[test]
fn remote_without_user_or_host_is_refused() {
    let base = "./mirrors".to_string();
    for url in ["@github.com:acme/widgets.git", "git@:acme/widgets.git", "github.com:acme/widgets.git"] {
        let url = url.to_string();
        assert_eq!(
            locate_repo(&base, "individual", &url, true),
            Err(MalformedUrlError { url: url.clone() })
        );
        assert_eq!(
            map_remote(&base, "individual", &url),
            Err(MalformedUrlError { url: url.clone() })
        );
    }
}

#[test]
fn remote_that_only_the_pattern_refuses_is_refused() {
    let base = "./mirrors".to_string();
    let url = "git@github.com:-acme/widgets.git".to_string();
    assert!(!matches_ssh_pattern(&url));
    assert!(locate_repo(&base, "individual", &url, true).is_ok());
    assert_eq!(map_remote(&base, "individual", &url), Err(MalformedUrlError { url: url.clone() }));
}

#[test]
fn pattern_is_matched_by_ssh_remotes_only() {
    assert!(matches_ssh_pattern("git@github.com:acme/widgets.git"));
    assert!(matches_ssh_pattern("git@gitlab.com:group/sub/project.git"));
    assert!(!matches_ssh_pattern("https://github.com/acme/widgets"));
    assert!(!matches_ssh_pattern("git@github.com"));
    assert!(!matches_ssh_pattern(""));
    assert!(!matches_ssh_pattern("git@host:-x"));
}

#[test]
fn locate_repo_refuses_what_did_not_match() {
    let base = "./mirrors".to_string();
    let url = "git@github.com:acme/widgets.git".to_string();
    assert_eq!(
        locate_repo(&base, "individual", &url, false),
        Err(MalformedUrlError { url: url.clone() })
    );
    assert!(locate_repo(&base, "individual", &url, true).is_ok());
}
