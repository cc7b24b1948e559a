//! The settings a run works from.

use vstd::prelude::*;
use vstd::string::*;

verus! {

/// A repository that is named directly, by its SSH-style remote.
#[derive(Clone, Debug, PartialEq)]
pub struct GitSyncConfigRepo {
    pub url: String,
}

/// An account or group whose repositories are listed through its provider.
#[derive(Clone, Debug, PartialEq)]
pub struct GitSyncConfigOrg {
    pub provider: String,
    pub namespace: String,
    pub auth_token: Option<String>,
}

/// All settings: the pause between two cycles in seconds, the directory the
/// mirrors live under, and the sources of repositories.
#[derive(Clone, Debug, PartialEq)]
pub struct GitSyncConfig {
    pub interval: u64,
    pub path: String,
    pub repos: Vec<GitSyncConfigRepo>,
    pub owners: Vec<GitSyncConfigOrg>,
}

/// The pause between two cycles when none is configured: one day.
pub fn get_default_interval() -> (interval: u64)
    ensures
        interval == 86400,
{
    86400
}

/// The mirror directory when none is configured.
pub fn get_default_path() -> (path: String)
    ensures
        path@ == "./git-backup-repos"@,
{
    String::from_str("./git-backup-repos")
}

/// An argument that sets the configuration file.
pub open spec fn is_config_flag(argument: Seq<char>) -> bool {
    argument.len() >= 9 && argument.subrange(0, 9) == "--config="@
}

/// The file that a configuration flag names: everything behind `--config=`.
pub open spec fn config_flag_value(argument: Seq<char>) -> Seq<char> {
    argument.skip(9)
}

/// The configuration file that the arguments name: that of the first
/// configuration flag, or `./git_sync_config.yaml` when there is none.
pub open spec fn config_path_of(arguments: Seq<String>) -> Seq<char>
    decreases arguments.len(),
{
    if arguments.len() == 0 {
        "./git_sync_config.yaml"@
    } else if is_config_flag(arguments[0]@) {
        config_flag_value(arguments[0]@)
    } else {
        config_path_of(arguments.skip(1))
    }
}

/// Picks the configuration file out of the program's arguments.
pub fn get_config_path(arguments: &Vec<String>) -> (path: String)
    ensures
        path@ == config_path_of(arguments@),
{
    let mut i: usize = 0;
    proof {
        assert(arguments@.skip(0) =~= arguments@);
    }
    while i < arguments.len()
        invariant
            i <= arguments.len(),
            config_path_of(arguments@) == config_path_of(arguments@.skip(i as int)),
        decreases arguments.len() - i,
    {
        let argument = arguments[i].as_str();
        let length: usize = argument.unicode_len();
        proof {
            assert(arguments@.skip(i as int)[0] == arguments@[i as int]);
            assert(arguments@.skip(i as int).skip(1) =~= arguments@.skip(i + 1));
        }
        if length >= 9 && String::from_str(argument.substring_char(0, 9)).eq(
            &String::from_str("--config="),
        ) {
            let rest = argument.substring_char(9, length);
            proof {
                assert(rest@ =~= argument@.skip(9));
            }
            return rest.to_owned();
        }
        i += 1;
    }
    proof {
        assert(arguments@.skip(i as int).len() == 0);
    }
    String::from_str("./git_sync_config.yaml")
}

} // verus!
