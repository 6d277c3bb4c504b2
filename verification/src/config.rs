//! Where the program keeps its data and its configuration.

use vstd::prelude::*;

verus! {

/// The folder to use: the one named by the environment, else the project's own
/// folder, else `fallback`.
pub open spec fn chosen_dir(env_folder: Option<Seq<char>>, project_dir: Option<Seq<char>>, fallback: Seq<char>) -> Seq<char> {
    match env_folder {
        Some(s) => s,
        None => match project_dir {
            Some(p) => p,
            None => fallback,
        },
    }
}

fn choose_dir(env_folder: Option<String>, project_dir: Option<String>, fallback: &str) -> (r: String)
    ensures
        r@ == chosen_dir(
            match env_folder {
                Some(s) => Some(s@),
                None => None,
            },
            match project_dir {
                Some(s) => Some(s@),
                None => None,
            },
            fallback@,
        ),
{
    if let Some(s) = env_folder {
        s
    } else if let Some(p) = project_dir {
        p
    } else {
        fallback.to_owned()
    }
}

/// The data folder: `env_folder` (set in the environment), else `project_dir` (the
/// project's local data folder), else `./.data`.
pub fn get_data_dir(env_folder: Option<String>, project_dir: Option<String>) -> (r: String)
    ensures
        r@ == chosen_dir(
            match env_folder {
                Some(s) => Some(s@),
                None => None,
            },
            match project_dir {
                Some(s) => Some(s@),
                None => None,
            },
            "./.data"@,
        ),
{
    choose_dir(env_folder, project_dir, "./.data")
}

/// The configuration folder: `env_folder` (set in the environment), else `project_dir`
/// (the project's local configuration folder), else `./.config`.
pub fn get_config_dir(env_folder: Option<String>, project_dir: Option<String>) -> (r: String)
    ensures
        r@ == chosen_dir(
            match env_folder {
                Some(s) => Some(s@),
                None => None,
            },
            match project_dir {
                Some(s) => Some(s@),
                None => None,
            },
            "./.config"@,
        ),
{
    choose_dir(env_folder, project_dir, "./.config")
}

} // verus!
