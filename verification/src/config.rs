//! The per-project configuration and the choice of the entry that applies
//! to the working directory.
use vstd::prelude::*;

verus! {

/// Settings of one project, as read from the configuration file.
///
/// `git_flow` holds the label stages: each map of the file is a list of
/// `(stage key, label)` pairs, the keys of one map being distinct.
#[derive(Clone, Debug)]
pub struct Config {
    pub remote_name: String,
    pub dev_issue_re: String,
    pub version_compare_re: String,
    pub enable_auto_fetch: bool,
    pub issue_title_filter_re: String,
    pub dev_issue_name_header: String,
    pub commit_append_nodeman_msg: bool,
    pub commit_append_msg: String,
    pub commit_link_description: String,
    pub remote_branch_name_template: String,
    pub commit_custom_params: String,
    pub fork_remote_name: Option<String>,
    pub git_flow: Vec<Vec<(String, String)>>,
}

/// The configuration that the walk over the file's entries settles on: each
/// entry visited either selects itself (its path is the working directory)
/// or clears the selection, so the last entry visited decides.
pub open spec fn selected_entry(entries: Seq<(String, Config)>, current_path: Seq<char>) -> Option<
    Config,
> {
    if entries.len() > 0 && entries.last().0@ == current_path {
        Some(entries.last().1)
    } else {
        None
    }
}

/// Walks the `(project path, configuration)` entries of the file in the
/// order given and returns the configuration selected for `current_path`;
/// `None` means that no project matches and loading fails.
pub fn select_project_config(entries: Vec<(String, Config)>, current_path: &str) -> (res: Option<
    Config,
>)
    ensures
        res == selected_entry(entries@, current_path@),
{
    let ghost input = entries@;
    let mut entries = entries;
    let n = entries.len();
    let mut selected: Option<usize> = None;
    for i in 0..n
        invariant
            entries@ == input,
            n == input.len(),
            selected == (if i > 0 && input[i - 1].0@ == current_path@ {
                Some((i - 1) as usize)
            } else {
                None::<usize>
            }),
    {
        if crate::text::str_eq(entries[i].0.as_str(), current_path) {
            selected = Some(i);
        } else {
            selected = None;
        }
    }
    match selected {
        Some(i) => {
            let entry = entries.remove(i);
            Some(entry.1)
        },
        None => None,
    }
}

} // verus!
