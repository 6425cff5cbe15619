//! The commit message built from the issue that the current branch names,
//! and the issue list offered when a new branch is made.
use vstd::prelude::*;
use crate::config::Config;
use crate::pattern::{
    compile_pattern, compile_pattern_set, pattern_capture, pattern_is_match,
    pattern_set_first_match, regex_capture, regex_compiles, regex_is_match, regex_set_compiles,
    regex_set_first_match,
};
use crate::text::{
    append_str, concat_str, decimal, decimal_string, first_index_of, lowercase_of, parse_usize,
    parsed_unsigned, position_of, lemma_split_nonempty, replace_all, replace_str, split_chars, split_on, starts_with,
    str_eq, to_lowercase, views,
};
use crate::branch::is_element_in_vec;

verus! {

/// The command-line options, one text per flag (`"false"` when absent,
/// `"true"` when given without a value).
#[derive(Clone, Debug)]
pub struct Args {
    pub message: String,
    pub print: String,
    pub web: String,
    pub new_branch: String,
    pub flow: String,
    pub chooise: String,
    pub debug: String,
    pub pr: String,
    pub force: String,
}

/// An open issue as `gh issue list` reports it.
#[derive(Clone, Debug)]
pub struct Foo {
    pub number: usize,
    pub title: String,
}

/// Why no commit could be prepared.
#[derive(Clone, Debug)]
pub enum CommitError {
    /// A pattern (configured or fixed) is not a valid regular expression.
    InvalidPattern,
    /// The branch name does not match the issue pattern.
    BranchMismatch,
    /// A pattern matched without the capture group the step reads.
    MissingCapture,
    /// The captured issue id is not a number.
    NotANumber,
    /// The branch's issue is not among the open issues, whose numbers are given.
    NotOpenIssue(Vec<usize>),
}

// ---------------------------------------------------------------------------
// Custom commit parameters
// ---------------------------------------------------------------------------

/// The parameters placed before the message: the configured ones followed
/// by `-m` when they start with `-`, otherwise `-m` alone.
pub open spec fn commit_params_text(custom_args: Seq<char>) -> Seq<char> {
    if custom_args.len() > 0 && custom_args[0] == '-' {
        custom_args + " -m"@
    } else {
        "-m"@
    }
}

/// Builds the parameters placed before the commit message.
pub fn custom_commit_params(custom_args: &str) -> (res: String)
    ensures
        res@ == commit_params_text(custom_args@),
{
    proof {
        reveal_strlit("-");
    }
    let base_params = "-m".to_string();
    let mut is_add_custom_args: bool = true;
    if !starts_with(custom_args, "-") {
        is_add_custom_args = false;
    }
    if custom_args.unicode_len() == 0 {
        is_add_custom_args = false;
    }
    if is_add_custom_args {
        assert(custom_args@.take(1)[0] == '-');
        concat_str(custom_args, " -m")
    } else {
        assert(!(custom_args@.len() > 0 && custom_args@[0] == '-')) by {
            if custom_args@.len() > 0 && custom_args@[0] == '-' {
                assert(custom_args@.take(1) == "-"@);
            }
        }
        base_params
    }
}

// ---------------------------------------------------------------------------
// The commit type
// ---------------------------------------------------------------------------

/// A bracketed part of the title's tag: `[` .. `]`.
pub open spec fn bracket_pattern() -> Seq<char> {
    "\\[.*\\]"@
}

/// The tag endings that are renamed, in order of precedence.
pub open spec fn head_patterns() -> Seq<Seq<char>> {
    seq![
        "bugfix$"@,
        "feature$"@,
        "minor$"@,
        "optimization$"@,
        "sprintfix$"@,
        "refactor$"@,
    ]
}

/// For each pattern of `head_patterns`, the word replaced and its replacement.
pub open spec fn head_renames() -> Seq<(Seq<char>, Seq<char>)> {
    seq![
        ("bugfix"@, "fix"@),
        ("feature"@, "feat"@),
        ("minor"@, "docs"@),
        ("optimization"@, "style"@),
        ("sprintfix"@, "refactor"@),
        ("refactor"@, "perf"@),
    ]
}

/// The tag in lower case, its square brackets dropped when it holds a
/// bracketed part.
pub open spec fn lowered_head(source: Seq<char>) -> Seq<char> {
    if regex_is_match(bracket_pattern(), source) {
        lowercase_of(replace_all(replace_all(source, "["@, ""@), "]"@, ""@))
    } else {
        lowercase_of(source)
    }
}

/// The commit type for a tag: the lowered tag, in which the word of the
/// first matching ending (if any) is replaced everywhere.
pub open spec fn renamed_head(source: Seq<char>) -> Seq<char> {
    let lower = lowered_head(source);
    match regex_set_first_match(head_patterns(), lower) {
        Some(i) => if i < 6 {
            replace_all(lower, head_renames()[i as int].0, head_renames()[i as int].1)
        } else {
            lower
        },
        None => lower,
    }
}

/// Whether both fixed pattern lists are accepted by the regex engine.
pub open spec fn head_patterns_compile() -> bool {
    regex_compiles(bracket_pattern()) && regex_set_compiles(head_patterns())
}

/// The list of ending patterns.
fn head_pattern_list() -> (res: Vec<String>)
    ensures
        views(res@) == head_patterns(),
{
    let mut v: Vec<String> = Vec::new();
    v.push("bugfix$".to_string());
    v.push("feature$".to_string());
    v.push("minor$".to_string());
    v.push("optimization$".to_string());
    v.push("sprintfix$".to_string());
    v.push("refactor$".to_string());
    assert(views(v@) == head_patterns());
    v
}

/// Turns an issue title's tag into the commit type (`[BUG]` -> `bug`,
/// `Feature` -> `feat`, ...).
pub fn lower_and_bug_head_replace(source: &str) -> (res: Result<String, CommitError>)
    ensures
        head_patterns_compile() ==> (res matches Ok(s) && s@ == renamed_head(source@)),
        !head_patterns_compile() ==> res matches Err(CommitError::InvalidPattern),
{
    proof {
        reveal_strlit("[");
        reveal_strlit("]");
        reveal_strlit("bugfix");
        reveal_strlit("feature");
        reveal_strlit("minor");
        reveal_strlit("optimization");
        reveal_strlit("sprintfix");
        reveal_strlit("refactor");
    }
    let replace_re = match compile_pattern("\\[.*\\]") {
        Ok(re) => re,
        Err(_) => return Err(CommitError::InvalidPattern),
    };
    let lower_source = if pattern_is_match(&replace_re, source) {
        let no_open = replace_str(source, "[", "");
        let no_brackets = replace_str(no_open.as_str(), "]", "");
        to_lowercase(no_brackets.as_str())
    } else {
        to_lowercase(source)
    };
    let patterns = head_pattern_list();
    let re = match compile_pattern_set(&patterns) {
        Ok(re) => re,
        Err(_) => return Err(CommitError::InvalidPattern),
    };
    let res = match pattern_set_first_match(&re, lower_source.as_str()) {
        Some(0) => replace_str(lower_source.as_str(), "bugfix", "fix"),
        Some(1) => replace_str(lower_source.as_str(), "feature", "feat"),
        Some(2) => replace_str(lower_source.as_str(), "minor", "docs"),
        Some(3) => replace_str(lower_source.as_str(), "optimization", "style"),
        Some(4) => replace_str(lower_source.as_str(), "sprintfix", "refactor"),
        Some(5) => replace_str(lower_source.as_str(), "refactor", "perf"),
        _ => lower_source,
    };
    Ok(res)
}

// ---------------------------------------------------------------------------
// The commit
// ---------------------------------------------------------------------------

/// The commit message: `<type>: <message> (<link word> #<issue>)`, followed
/// by the configured suffix when it is switched on.
pub open spec fn commit_message_text(config: Config, head: Seq<char>, message: Seq<char>, number: nat) -> Seq<
    char,
> {
    head + ": "@ + message + " ("@ + config.commit_link_description@ + " #"@ + decimal(number)
        + ")"@ + (if config.commit_append_nodeman_msg {
        config.commit_append_msg@
    } else {
        Seq::<char>::empty()
    })
}

/// The commit command as it is shown to the user.
pub open spec fn commit_command_text(config: Config, message: Seq<char>) -> Seq<char> {
    "git commit "@ + commit_params_text(config.commit_custom_params@) + " \""@ + message + "\""@
}

/// The arguments given to `git`: `commit`, the parameters split at spaces,
/// and the message.
pub open spec fn commit_arguments(config: Config, message: Seq<char>) -> Seq<Seq<char>> {
    seq!["commit"@] + split_on(commit_params_text(config.commit_custom_params@), ' ') + seq![message]
}

/// The command shown to the user and the arguments given to `git` carry
/// the same message: `git` gets `commit` first and the message last, and the
/// shown command ends with the message in double quotes.
pub proof fn lemma_commit_plan_agrees(config: Config, message: Seq<char>)
    ensures
        commit_arguments(config, message)[0] == "commit"@,
        commit_arguments(config, message).last() == message,
        commit_command_text(config, message).len() >= message.len() + 1,
        commit_command_text(config, message).subrange(
            commit_command_text(config, message).len() - message.len() - 1,
            commit_command_text(config, message).len() as int,
        ) == message + "\""@,
{
    let head = "git commit "@ + commit_params_text(config.commit_custom_params@) + " \""@;
    assert(commit_command_text(config, message) == head + (message + "\""@));
    assert((head + (message + "\""@)).subrange(
        head.len() as int,
        (head + (message + "\""@)).len() as int,
    ) == message + "\""@);
    reveal_strlit("\"");
}

/// The message always reaches `git` right after `-m`, whatever parameters
/// are configured.
pub proof fn lemma_message_follows_m(config: Config, message: Seq<char>)
    ensures
        commit_arguments(config, message).len() >= 3,
        commit_arguments(config, message)[commit_arguments(config, message).len() - 2] == "-m"@,
{
    reveal_strlit(" -m");
    reveal_strlit("-m");
    let p = commit_params_text(config.commit_custom_params@);
    let pieces = split_on(p, ' ');
    lemma_split_ends_with_m(config.commit_custom_params@);
    let args = commit_arguments(config, message);
    assert(args == seq!["commit"@] + pieces + seq![message]);
    assert(args[args.len() - 2] == pieces.last());
}

/// The last piece of the parameters, split at spaces, is `-m`.
proof fn lemma_split_ends_with_m(custom_args: Seq<char>)
    ensures
        split_on(commit_params_text(custom_args), ' ').len() >= 1,
        split_on(commit_params_text(custom_args), ' ').last() == "-m"@,
{
    reveal_strlit(" -m");
    reveal_strlit("-m");
    let p = commit_params_text(custom_args);
    let q = p.drop_last();
    let r = q.drop_last();
    if custom_args.len() > 0 && custom_args[0] == '-' {
        assert(p == custom_args + seq![' ', '-', 'm']);
        assert(r == custom_args.push(' '));
        assert(r.drop_last() == custom_args);
        lemma_split_nonempty(custom_args, ' ');
        lemma_split_nonempty(r, ' ');
        lemma_split_nonempty(q, ' ');
        assert(split_on(r, ' ').last() == Seq::<char>::empty());
        assert(split_on(q, ' ').last() == seq!['-']);
        assert(split_on(p, ' ').last() == seq!['-', 'm']);
    } else {
        assert(p == seq!['-', 'm']);
        assert(r == Seq::<char>::empty());
        assert(q == seq!['-']);
        assert(q.drop_last() == r);
        assert(p.drop_last() == q);
        lemma_split_nonempty(q, ' ');
        assert(split_on(r, ' ').last() == Seq::<char>::empty());
        assert(split_on(q, ' ').last() == seq!['-']);
        assert(split_on(p, ' ').last() == seq!['-', 'm']);
    }
    assert(seq!['-', 'm'] == "-m"@);
    lemma_split_nonempty(p, ' ');
}

/// A commit ready to run.
pub struct CommitPlan {
    /// The command as shown (and printed with `-p`).
    pub command_text: String,
    /// The arguments for `git`.
    pub args: Vec<String>,
}

/// Builds the commit message.
pub fn commit_message(config: &Config, head: &str, message: &str, number: usize) -> (res: String)
    ensures
        res@ == commit_message_text(*config, head@, message@, number as nat),
{
    let mut d = concat_str(head, ": ");
    append_str(&mut d, message);
    append_str(&mut d, " (");
    append_str(&mut d, config.commit_link_description.as_str());
    append_str(&mut d, " #");
    let digits = decimal_string(number as u64);
    append_str(&mut d, digits.as_str());
    append_str(&mut d, ")");
    if config.commit_append_nodeman_msg {
        append_str(&mut d, config.commit_append_msg.as_str());
    } else {
        assert(d@ + Seq::<char>::empty() == d@);
    }
    d
}

/// Builds the command text and the `git` arguments for a commit message.
pub fn commit_plan(config: &Config, message: &str) -> (res: CommitPlan)
    ensures
        res.command_text@ == commit_command_text(*config, message@),
        views(res.args@) == commit_arguments(*config, message@),
{
    let params = custom_commit_params(config.commit_custom_params.as_str());
    let mut c = concat_str("git commit ", params.as_str());
    append_str(&mut c, " \"");
    append_str(&mut c, message);
    append_str(&mut c, "\"");
    let mut args: Vec<String> = Vec::new();
    args.push("commit".to_string());
    let pieces = split_chars(params.as_str(), ' ');
    for i in 0..pieces.len()
        invariant
            views(args@) == seq!["commit"@] + views(pieces@).take(i as int),
    {
        let ghost before = views(args@);
        args.push(pieces[i].clone());
        assert(views(args@) == before.push(pieces@[i as int]@));
        assert(views(pieces@).take(i + 1) == views(pieces@).take(i as int).push(pieces@[i as int]@));
    }
    let ghost before = views(args@);
    args.push(message.to_string());
    assert(views(pieces@).take(pieces.len() as int) == views(pieces@));
    assert(views(args@) == before.push(message@));
    CommitPlan { command_text: c, args }
}

/// The issue number that the branch names, once it is checked to be open.
pub open spec fn branch_issue_outcome(config: Config, branch: Seq<char>, open: Seq<usize>) -> Result<
    nat,
    (),
> {
    let re = config.dev_issue_re@;
    if !regex_compiles(re) || !regex_is_match(re, branch) {
        Err(())
    } else {
        match regex_capture(re, branch, 1) {
            None => Err(()),
            Some(id) => match parsed_unsigned(id) {
                None => Err(()),
                Some(n) => if open.contains(n as usize) {
                    Ok(n)
                } else {
                    Err(())
                },
            },
        }
    }
}

/// Reads the issue number from the branch name with `dev_issue_re`
/// (group 1) and checks that it is one of the open issues.
pub fn branch_issue_number(config: &Config, branch: &str, issues: &Vec<Foo>) -> (res: Result<
    usize,
    CommitError,
>)
    ensures
        !regex_compiles(config.dev_issue_re@) ==> res matches Err(CommitError::InvalidPattern),
        regex_compiles(config.dev_issue_re@) && !regex_is_match(config.dev_issue_re@, branch@)
            ==> res matches Err(CommitError::BranchMismatch),
        regex_compiles(config.dev_issue_re@) && regex_is_match(config.dev_issue_re@, branch@)
            ==> match regex_capture(config.dev_issue_re@, branch@, 1) {
            None => res matches Err(CommitError::MissingCapture),
            Some(id) => match parsed_unsigned(id) {
                None => res matches Err(CommitError::NotANumber),
                Some(n) => if issues@.map_values(|f: Foo| f.number).contains(n as usize) {
                    res == Ok::<usize, CommitError>(n as usize)
                } else {
                    res matches Err(CommitError::NotOpenIssue(ns)) && ns@ == issues@.map_values(
                        |f: Foo| f.number,
                    )
                },
            },
        },
{
    let issue_re = match compile_pattern(config.dev_issue_re.as_str()) {
        Ok(re) => re,
        Err(_) => return Err(CommitError::InvalidPattern),
    };
    if !pattern_is_match(&issue_re, branch) {
        return Err(CommitError::BranchMismatch);
    }
    let branch_number = match pattern_capture(&issue_re, branch, 1) {
        Some(s) => s,
        None => return Err(CommitError::MissingCapture),
    };
    let usize_branch = match parse_usize(branch_number.as_str()) {
        Some(n) => n,
        None => return Err(CommitError::NotANumber),
    };
    let mut b_n_vec: Vec<usize> = Vec::new();
    for i in 0..issues.len()
        invariant
            b_n_vec@ == issues@.take(i as int).map_values(|f: Foo| f.number),
    {
        b_n_vec.push(issues[i].number);
        assert(issues@.take(i + 1) == issues@.take(i as int).push(issues@[i as int]));
    }
    assert(issues@.take(issues.len() as int) == issues@);
    if is_element_in_vec(&usize_branch, &b_n_vec) {
        Ok(usize_branch)
    } else {
        Err(CommitError::NotOpenIssue(b_n_vec))
    }
}

/// The commit for one issue whose number the branch names: `None` when the
/// title does not match `issue_title_filter_re`. The type comes from group 1
/// of the title; the message is `message_arg` unless that is `"false"`, in
/// which case it is group 2 of the title.
pub fn commit_plan_for_issue(config: &Config, message_arg: &str, issue: &Foo) -> (res: Result<
    Option<CommitPlan>,
    CommitError,
>)
    ensures
        !regex_compiles(config.issue_title_filter_re@) ==> res matches Err(
            CommitError::InvalidPattern,
        ),
        regex_compiles(config.issue_title_filter_re@) && !regex_is_match(
            config.issue_title_filter_re@,
            issue.title@,
        ) ==> res matches Ok(None),
        regex_compiles(config.issue_title_filter_re@) && regex_is_match(
            config.issue_title_filter_re@,
            issue.title@,
        ) ==> match regex_capture(config.issue_title_filter_re@, issue.title@, 1) {
            None => res matches Err(CommitError::MissingCapture),
            Some(tag) => match (if message_arg@ != "false"@ {
                Some(message_arg@)
            } else {
                regex_capture(config.issue_title_filter_re@, issue.title@, 2)
            }) {
                None => res matches Err(CommitError::MissingCapture),
                Some(message) => if !head_patterns_compile() {
                    res matches Err(CommitError::InvalidPattern)
                } else {
                    res matches Ok(Some(plan)) && plan.command_text@ == commit_command_text(
                        *config,
                        commit_message_text(*config, renamed_head(tag), message, issue.number as nat),
                    ) && views(plan.args@) == commit_arguments(
                        *config,
                        commit_message_text(*config, renamed_head(tag), message, issue.number as nat),
                    )
                },
            },
        },
{
    let title_re = match compile_pattern(config.issue_title_filter_re.as_str()) {
        Ok(re) => re,
        Err(_) => return Err(CommitError::InvalidPattern),
    };
    if !pattern_is_match(&title_re, issue.title.as_str()) {
        return Ok(None);
    }
    let tag = match pattern_capture(&title_re, issue.title.as_str(), 1) {
        Some(t) => t,
        None => return Err(CommitError::MissingCapture),
    };
    let message = if !str_eq(message_arg, "false") {
        message_arg.to_string()
    } else {
        match pattern_capture(&title_re, issue.title.as_str(), 2) {
            Some(m) => m,
            None => return Err(CommitError::MissingCapture),
        }
    };
    let currect_tag = match lower_and_bug_head_replace(tag.as_str()) {
        Ok(t) => t,
        Err(e) => return Err(e),
    };
    let d = commit_message(config, currect_tag.as_str(), message.as_str(), issue.number);
    Ok(Some(commit_plan(config, d.as_str())))
}

// ---------------------------------------------------------------------------
// Choosing an issue for a new branch
// ---------------------------------------------------------------------------

/// The issues offered for a new branch: for each issue whose title matches
/// `title_re`, its group 2 and its number; `None` once a matching title
/// lacks group 2.
pub open spec fn issue_choice_lists(issues: Seq<Foo>, title_re: Seq<char>) -> Option<
    (Seq<Seq<char>>, Seq<usize>),
>
    decreases issues.len(),
{
    if issues.len() == 0 {
        Some((Seq::<Seq<char>>::empty(), Seq::<usize>::empty()))
    } else {
        match issue_choice_lists(issues.drop_last(), title_re) {
            None => None,
            Some((msgs, nums)) => {
                let issue = issues.last();
                if regex_is_match(title_re, issue.title@) {
                    match regex_capture(title_re, issue.title@, 2) {
                        Some(m) => Some((msgs.push(m), nums.push(issue.number))),
                        None => None,
                    }
                } else {
                    Some((msgs, nums))
                }
            }
        }
    }
}

/// The issues whose titles match the pattern, in list order.
pub open spec fn tagged_issues(issues: Seq<Foo>, title_re: Seq<char>) -> Seq<Foo> {
    issues.filter(|f: Foo| regex_is_match(title_re, f.title@))
}

/// Each offered message and number come from the same issue: the k-th
/// issue whose title matches gives the k-th message (its group 2) and the
/// k-th number (its own number).
pub proof fn lemma_issue_choices_pair_up(issues: Seq<Foo>, title_re: Seq<char>)
    ensures
        issue_choice_lists(issues, title_re) matches Some((msgs, nums)) ==> {
            &&& nums == tagged_issues(issues, title_re).map_values(|f: Foo| f.number)
            &&& msgs.len() == nums.len()
            &&& forall|k: int|
                0 <= k < msgs.len() ==> regex_capture(
                    title_re,
                    (#[trigger] tagged_issues(issues, title_re)[k]).title@,
                    2,
                ) == Some(msgs[k])
        },
    decreases issues.len(),
{
    reveal_with_fuel(Seq::filter, 1);
    if issues.len() > 0 {
        lemma_issue_choices_pair_up(issues.drop_last(), title_re);
        if let Some((msgs, nums)) = issue_choice_lists(issues, title_re) {
            let init = tagged_issues(issues.drop_last(), title_re);
            let all = tagged_issues(issues, title_re);
            let issue = issues.last();
            if regex_is_match(title_re, issue.title@) {
                assert(all == init.push(issue));
                let (m0, n0) = issue_choice_lists(issues.drop_last(), title_re).unwrap();
                assert(nums == n0.push(issue.number));
                assert(all.map_values(|f: Foo| f.number) == init.map_values(|f: Foo| f.number).push(
                    issue.number,
                ));
                assert forall|k: int| 0 <= k < msgs.len() implies regex_capture(
                    title_re,
                    (#[trigger] all[k]).title@,
                    2,
                ) == Some(msgs[k]) by {
                    if k < m0.len() {
                        assert(all[k] == init[k]);
                        assert(msgs[k] == m0[k]);
                    }
                }
            } else {
                assert(all == init);
            }
        }
    }
}

/// The issues to choose from.
pub struct IssueChoices {
    pub messages: Vec<String>,
    pub numbers: Vec<usize>,
}

proof fn lemma_choice_none_sticks(issues: Seq<Foo>, i: int, title_re: Seq<char>)
    requires
        0 <= i <= issues.len(),
        issue_choice_lists(issues.take(i), title_re) is None,
    ensures
        issue_choice_lists(issues, title_re) is None,
    decreases issues.len() - i,
{
    if i < issues.len() {
        assert(issues.take(i + 1).drop_last() == issues.take(i));
        lemma_choice_none_sticks(issues, i + 1, title_re);
    } else {
        assert(issues.take(i) == issues);
    }
}

/// Lists the issues to choose from for a new branch.
pub fn issue_choices(issues: &Vec<Foo>, title_re: &str) -> (res: Result<IssueChoices, CommitError>)
    ensures
        issues.len() > 0 && !regex_compiles(title_re@) ==> res matches Err(
            CommitError::InvalidPattern,
        ),
        issues.len() == 0 || regex_compiles(title_re@) ==> match issue_choice_lists(
            issues@,
            title_re@,
        ) {
            None => res matches Err(CommitError::MissingCapture),
            Some((msgs, nums)) => res matches Ok(c) && views(c.messages@) == msgs && c.numbers@
                == nums,
        },
{
    let mut messages: Vec<String> = Vec::new();
    let mut numbers: Vec<usize> = Vec::new();
    if issues.len() == 0 {
        return Ok(IssueChoices { messages, numbers });
    }
    let re = match compile_pattern(title_re) {
        Ok(re) => re,
        Err(_) => return Err(CommitError::InvalidPattern),
    };
    for i in 0..issues.len()
        invariant
            re@ == title_re@,
            regex_compiles(title_re@),
            issue_choice_lists(issues@.take(i as int), title_re@) == Some(
                (views(messages@), numbers@),
            ),
    {
        let issue = &issues[i];
        assert(issues@.take(i + 1).drop_last() == issues@.take(i as int));
        assert(issues@.take(i + 1).last() == *issue);
        if pattern_is_match(&re, issue.title.as_str()) {
            match pattern_capture(&re, issue.title.as_str(), 2) {
                Some(m) => {
                    let ghost before = views(messages@);
                    messages.push(m);
                    numbers.push(issue.number);
                    assert(views(messages@) == before.push(m@));
                },
                None => {
                    proof {
                        lemma_choice_none_sticks(issues@, i + 1, title_re@);
                    }
                    return Err(CommitError::MissingCapture);
                },
            }
        }
    }
    assert(issues@.take(issues.len() as int) == issues@);
    Ok(IssueChoices { messages, numbers })
}

impl IssueChoices {
    /// The number of the issue whose message was chosen (the first issue
    /// with that message).
    pub fn chosen_issue_number(&self, choice: &str) -> (res: Option<usize>)
        requires
            self.messages.len() == self.numbers.len(),
        ensures
            match first_index_of(views(self.messages@), choice@) {
                Some(i) => res == Some(self.numbers@[i]),
                None => res is None,
            },
    {
        match position_of(&self.messages, choice) {
            Some(i) => {
                proof {
                    lemma_first_index_bound(views(self.messages@), choice@);
                }
                Some(self.numbers[i])
            },
            None => None,
        }
    }
}

proof fn lemma_first_index_bound(s: Seq<Seq<char>>, x: Seq<char>)
    ensures
        first_index_of(s, x) matches Some(i) ==> 0 <= i < s.len(),
    decreases s.len(),
{
    if s.len() > 0 {
        lemma_first_index_bound(s.drop_first(), x);
    }
}

} // verus!
