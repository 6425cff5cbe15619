//! Opening a pull request from the current branch to the latest base branch
//! of the fork remote.
use vstd::prelude::*;
use crate::config::Config;
use crate::text::{append_str, concat_str, str_eq};

verus! {

/// A pull request to open: the base branch found on the fork remote.
pub struct Pr {
    pub config: Config,
    pub all_branch: Vec<String>,
    pub biggerst_branch_name: String,
    pub fork_remote: String,
    pub force: bool,
}

/// The arguments with which the base branch is looked up on the fork.
pub struct TargetQuery {
    pub choice: bool,
    pub version_re: String,
    pub auto_fetch: bool,
    pub remote_name: String,
    pub new_branch_base_format: String,
    pub skip_version_re: bool,
}

/// The `git push` command: `git push <fork> <branch>`, with ` -f` when forced.
pub open spec fn push_command_text(fork: Seq<char>, branch: Seq<char>, force: bool) -> Seq<char> {
    "git push "@ + fork + " "@ + branch + (if force {
        " -f"@
    } else {
        ""@
    })
}

/// The `gh pr create` command from `head` to `base` with the body file.
pub open spec fn pr_create_command_text(head: Seq<char>, base: Seq<char>, body_path: Seq<char>) -> Seq<
    char,
> {
    "gh pr create -f -H "@ + head + " -B "@ + base + " -F "@ + body_path
}

impl Pr {
    /// How the base branch is to be looked up: on the fork remote, with the
    /// project's version pattern and template, letting the user choose when
    /// `chooise` is `"true"`. `None` when no fork remote is configured.
    pub fn target_query(config: &Config, chooise: &str) -> (res: Option<TargetQuery>)
        ensures
            config.fork_remote_name is None ==> res is None,
            config.fork_remote_name matches Some(fork) ==> res matches Some(q) && q.choice == (
            chooise@ == "true"@) && q.version_re == config.version_compare_re && q.auto_fetch
                == config.enable_auto_fetch && q.remote_name == fork
                && q.new_branch_base_format == config.remote_branch_name_template
                && !q.skip_version_re,
    {
        match &config.fork_remote_name {
            Some(fork_remote) => Some(
                TargetQuery {
                    choice: str_eq(chooise, "true"),
                    version_re: config.version_compare_re.clone(),
                    auto_fetch: config.enable_auto_fetch,
                    remote_name: fork_remote.clone(),
                    new_branch_base_format: config.remote_branch_name_template.clone(),
                    skip_version_re: false,
                },
            ),
            None => None,
        }
    }

    /// The pull request towards `branch_name` (the base found on the fork),
    /// knowing all the fork's branches; `None` when no fork remote is configured.
    pub fn new(config: Config, force: bool, branch_name: String, all_branch: Vec<String>) -> (res:
        Option<Pr>)
        ensures
            config.fork_remote_name is None ==> res is None,
            config.fork_remote_name matches Some(fork) ==> res matches Some(p) && p.config == config
                && p.fork_remote == fork && p.biggerst_branch_name == branch_name && p.all_branch
                == all_branch && p.force == force,
    {
        let fork_remote = match &config.fork_remote_name {
            Some(f) => f.clone(),
            None => return None,
        };
        Some(
            Pr {
                config,
                all_branch,
                biggerst_branch_name: branch_name,
                fork_remote,
                force,
            },
        )
    }

    /// The fork remote to push to; `None` when it is not configured.
    pub fn choose_remote_fork(&self) -> (res: Option<String>)
        ensures
            res == self.config.fork_remote_name,
    {
        match &self.config.fork_remote_name {
            Some(name) => Some(name.clone()),
            None => None,
        }
    }

    /// The push of the current branch to the fork.
    pub fn push_command(&self, fork_remote_name: &str, current_branch: &str) -> (res: String)
        ensures
            res@ == push_command_text(fork_remote_name@, current_branch@, self.force),
    {
        let mut cmd = concat_str("git push ", fork_remote_name);
        append_str(&mut cmd, " ");
        append_str(&mut cmd, current_branch);
        if self.force {
            append_str(&mut cmd, " -f");
        } else {
            append_str(&mut cmd, "");
        }
        cmd
    }

    /// The creation of the pull request from the current branch to the base.
    pub fn pr_create_command(&self, current_branch: &str, body_path: &str) -> (res: String)
        ensures
            res@ == pr_create_command_text(current_branch@, self.biggerst_branch_name@, body_path@),
    {
        let mut cmd = concat_str("gh pr create -f -H ", current_branch);
        append_str(&mut cmd, " -B ");
        append_str(&mut cmd, self.biggerst_branch_name.as_str());
        append_str(&mut cmd, " -F ");
        append_str(&mut cmd, body_path);
        cmd
    }
}

} // verus!
