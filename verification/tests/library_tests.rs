use ncommit::branch::{
    branch_already_exists, branch_prefix_strip, get_target_issue, is_element_in_vec,
    is_yes_answer, listing_is_strippable, new_branch_name, parse_branch_issue_id, remote_branch_path, IssueIdError,
    TargetError, TargetIssue,
};
use ncommit::commit::{
    branch_issue_number, commit_message, commit_plan, commit_plan_for_issue,
    custom_commit_params, issue_choices, lower_and_bug_head_replace, CommitError, Foo,
};
use ncommit::config::{select_project_config, Config};
use ncommit::flow::{
    command_line, error_msg_transcate, flow_choice_labels, last_argument, parse_flow_command,
    FailureKind, FlowError, GitFlowCommand, RebasePlan,
};
use ncommit::pr::Pr;
use ncommit::template::render_branch_name_by_tmp;
use ncommit::text::{
    concat_str, decimal_string, parse_i32, parse_usize, position_of, replace_str,
    signed_decimal_string, split_chars, starts_with, str_eq,
};
use ncommit::version::{biggerst_version_number, VersionError};
use ncommit::view::{default_web_command, pr_list_command, PrEntry, ViewError, ViewHandler, WebAction};

fn pair(k: &str, v: &str) -> (String, String) {
    (k.to_string(), v.to_string())
}

fn strings(v: &[&str]) -> Vec<String> {
    v.iter().map(|s| s.to_string()).collect()
}

fn config() -> Config {
    Config {
        remote_name: "origin".to_string(),
        dev_issue_re: ".*issue#?(\\d+).*".to_string(),
        version_compare_re: "V(\\d{1,2}\\.\\d{1,2}\\.\\d{1,2})-rc".to_string(),
        enable_auto_fetch: false,
        issue_title_filter_re: "\\[(.*)\\](.*)".to_string(),
        dev_issue_name_header: "dev_issue#".to_string(),
        commit_append_nodeman_msg: true,
        commit_append_msg: "(wf -l)".to_string(),
        commit_link_description: "closed".to_string(),
        remote_branch_name_template: "V{{ number }}-rc".to_string(),
        commit_custom_params: "".to_string(),
        fork_remote_name: Some("fork".to_string()),
        git_flow: vec![vec![pair("1", "todo"), pair("2", "doing")], vec![pair("3", "done")]],
    }
}

// ---------------------------------------------------------------- text

#[test]
fn decimal_and_parse_roundtrip() {
    assert_eq!(decimal_string(0), "0");
    assert_eq!(decimal_string(12345), "12345");
    assert_eq!(parse_usize(&decimal_string(12345)), Some(12345));
    assert_eq!(signed_decimal_string(-42), "-42");
    assert_eq!(signed_decimal_string(i64::MIN), i64::MIN.to_string());
    assert_eq!(parse_i32(&signed_decimal_string(-2147483648)), Some(i32::MIN));
}

#[test]
fn parse_usize_follows_std() {
    for s in ["+12", "12", "007", "", "+", "-1", "1a", "18446744073709551616", "18446744073709551615"] {
        assert_eq!(parse_usize(s), s.parse::<usize>().ok(), "input {:?}", s);
    }
}

#[test]
fn parse_i32_follows_std() {
    for s in ["-2147483648", "2147483647", "2147483648", "-2147483649", "+5", "-", "", "--1", "12x"] {
        assert_eq!(parse_i32(s), s.parse::<i32>().ok(), "input {:?}", s);
    }
}

#[test]
fn split_and_replace_follow_std() {
    for s in ["a  b", "", " ", "gh issue view 27", "x\ny\n"] {
        let expected: Vec<String> = s.split(' ').map(|p| p.to_string()).collect();
        assert_eq!(split_chars(s, ' '), expected);
    }
    assert_eq!(replace_str("aaa", "aa", "b"), "ba");
    assert_eq!(replace_str("[Bug]", "[", ""), "Bug]");
    assert_eq!(replace_str("bugfix-bugfix", "bugfix", "fix"), "fix-fix");
    assert_eq!(replace_str("é中x中", "中", "z"), "ézxz");
}

#[test]
fn small_string_helpers() {
    assert!(starts_with("* main", "* "));
    assert!(!starts_with("*", "* "));
    assert!(str_eq("abc", "abc"));
    assert!(!str_eq("abc", "abd"));
    assert_eq!(concat_str("a", "b"), "ab");
    assert_eq!(position_of(&strings(&["x", "y", "y"]), "y"), Some(1));
    assert_eq!(position_of(&strings(&["x"]), "z"), None);
}

// ---------------------------------------------------------------- config

#[test]
fn select_project_config_uses_last_entry() {
    let mut a = config();
    a.remote_name = "a".to_string();
    let mut b = config();
    b.remote_name = "b".to_string();
    let chosen = select_project_config(vec![("/p".to_string(), a.clone()), ("/q".to_string(), b.clone())], "/q");
    assert_eq!(chosen.unwrap().remote_name, "b");
    // The walk clears the choice at a later entry for another project.
    let none = select_project_config(vec![("/q".to_string(), b), ("/p".to_string(), a)], "/q");
    assert!(none.is_none());
    assert!(select_project_config(vec![], "/q").is_none());
}

// ---------------------------------------------------------------- commit

#[test]
fn custom_commit_params_cases() {
    assert_eq!(custom_commit_params(""), "-m");
    assert_eq!(custom_commit_params("abc"), "-m");
    assert_eq!(custom_commit_params("--no-verify"), "--no-verify -m");
    assert_eq!(custom_commit_params("-s --no-verify"), "-s --no-verify -m");
}

#[test]
fn lower_and_bug_head_replace_cases() {
    assert_eq!(lower_and_bug_head_replace("[BUG]").unwrap(), "bug");
    assert_eq!(lower_and_bug_head_replace("Bugfix").unwrap(), "fix");
    assert_eq!(lower_and_bug_head_replace("[Feature]").unwrap(), "feat");
    assert_eq!(lower_and_bug_head_replace("Minor").unwrap(), "docs");
    assert_eq!(lower_and_bug_head_replace("OPTIMIZATION").unwrap(), "style");
    assert_eq!(lower_and_bug_head_replace("sprintfix").unwrap(), "refactor");
    assert_eq!(lower_and_bug_head_replace("Refactor").unwrap(), "perf");
    assert_eq!(lower_and_bug_head_replace("feature-x").unwrap(), "feature-x");
    assert_eq!(lower_and_bug_head_replace("Docs").unwrap(), "docs");
}

#[test]
fn readme_commit_message() {
    // README: `ncommit` commits "... (closed #4)(wf -l)".
    let c = config();
    let d = commit_message(&c, "bugfix", "Test Issue", 4);
    assert_eq!(d, "bugfix: Test Issue (closed #4)(wf -l)");
    let plan = commit_plan(&c, &d);
    assert_eq!(plan.command_text, "git commit -m \"bugfix: Test Issue (closed #4)(wf -l)\"");
    assert_eq!(plan.args, strings(&["commit", "-m", "bugfix: Test Issue (closed #4)(wf -l)"]));
}

#[test]
fn commit_without_suffix_and_with_params() {
    let mut c = config();
    c.commit_append_nodeman_msg = false;
    c.commit_custom_params = "-s --no-verify".to_string();
    let d = commit_message(&c, "fix", "msg", 12);
    assert_eq!(d, "fix: msg (closed #12)");
    let plan = commit_plan(&c, &d);
    assert_eq!(plan.command_text, "git commit -s --no-verify -m \"fix: msg (closed #12)\"");
    assert_eq!(plan.args, strings(&["commit", "-s", "--no-verify", "-m", "fix: msg (closed #12)"]));
}

#[test]
fn commit_plan_for_issue_cases() {
    let c = config();
    let issue = Foo { number: 3, title: "[bugfix]Test Issue".to_string() };
    let plan = commit_plan_for_issue(&c, "false", &issue).unwrap().unwrap();
    assert_eq!(plan.command_text, "git commit -m \"fix: Test Issue (closed #3)(wf -l)\"");
    // README: `-m test message` replaces the title's text.
    let plan = commit_plan_for_issue(&c, "test message", &issue).unwrap().unwrap();
    assert_eq!(plan.args.last().unwrap(), "fix: test message (closed #3)(wf -l)");
    let untagged = Foo { number: 3, title: "no tag".to_string() };
    assert!(commit_plan_for_issue(&c, "false", &untagged).unwrap().is_none());
    let mut bad = config();
    bad.issue_title_filter_re = "(".to_string();
    assert!(matches!(commit_plan_for_issue(&bad, "false", &issue), Err(CommitError::InvalidPattern)));
    let mut one_group = config();
    one_group.issue_title_filter_re = "\\[(.*)\\]".to_string();
    assert!(matches!(commit_plan_for_issue(&one_group, "false", &issue), Err(CommitError::MissingCapture)));
    assert!(commit_plan_for_issue(&one_group, "given", &issue).unwrap().is_some());
}

#[test]
fn branch_issue_number_cases() {
    let c = config();
    let issues = vec![
        Foo { number: 27, title: "[bug] a".to_string() },
        Foo { number: 30, title: "[feature] b".to_string() },
    ];
    assert_eq!(branch_issue_number(&c, "dev_issue#27\n", &issues).unwrap(), 27);
    match branch_issue_number(&c, "dev_issue#28", &issues) {
        Err(CommitError::NotOpenIssue(ns)) => assert_eq!(ns, vec![27, 30]),
        other => panic!("{:?}", other),
    }
    assert!(matches!(branch_issue_number(&c, "main", &issues), Err(CommitError::BranchMismatch)));
    assert!(matches!(
        branch_issue_number(&c, "dev_issue#99999999999999999999999", &issues),
        Err(CommitError::NotANumber)
    ));
    let mut bad = config();
    bad.dev_issue_re = "(".to_string();
    assert!(matches!(branch_issue_number(&bad, "dev_issue#27", &issues), Err(CommitError::InvalidPattern)));
    let mut no_group = config();
    no_group.dev_issue_re = "issue".to_string();
    assert!(matches!(branch_issue_number(&no_group, "dev_issue#27", &issues), Err(CommitError::MissingCapture)));
}

#[test]
fn issue_choices_cases() {
    let issues = vec![
        Foo { number: 1, title: "[bug] first".to_string() },
        Foo { number: 2, title: "untagged".to_string() },
        Foo { number: 3, title: "[feat] first".to_string() },
    ];
    let choices = issue_choices(&issues, "\\[(.*)\\] (.*)").unwrap();
    assert_eq!(choices.messages, strings(&["first", "first"]));
    assert_eq!(choices.numbers, vec![1, 3]);
    assert_eq!(choices.chosen_issue_number("first"), Some(1));
    assert_eq!(choices.chosen_issue_number("other"), None);
    assert!(matches!(issue_choices(&issues, "("), Err(CommitError::InvalidPattern)));
    assert!(issue_choices(&vec![], "(").unwrap().messages.is_empty());
    assert!(matches!(issue_choices(&issues, "\\[(.*)\\]"), Err(CommitError::MissingCapture)));
}

// ---------------------------------------------------------------- branch

#[test]
fn branch_prefix_strip_cases() {
    assert_eq!(branch_prefix_strip("* main"), "main");
    assert_eq!(branch_prefix_strip("  origin/x"), "origin/x");
    assert_eq!(branch_prefix_strip("ab"), "");
    assert_eq!(branch_prefix_strip("a"), "a");
    assert_eq!(branch_prefix_strip(""), "");
    assert_eq!(branch_prefix_strip("éx"), "x");
}

#[test]
fn listing_is_strippable_cases() {
    assert!(listing_is_strippable(LISTING));
    assert!(listing_is_strippable("é\n* x\n\na"));
    assert!(!listing_is_strippable("  ok\n中文"));
    assert!(!listing_is_strippable("a中"));
}

#[test]
fn parse_branch_issue_id_errors() {
    let c = config();
    assert_eq!(parse_branch_issue_id(&c, "main"), Err(IssueIdError::NoMatch));
    let mut bad = config();
    bad.dev_issue_re = "[".to_string();
    assert_eq!(parse_branch_issue_id(&bad, "x"), Err(IssueIdError::InvalidPattern));
    let mut no_group = config();
    no_group.dev_issue_re = "issue".to_string();
    assert_eq!(parse_branch_issue_id(&no_group, "issue#1"), Err(IssueIdError::MissingCapture));
}

const LISTING: &str = "  origin/HEAD -> origin/master\n  origin/V2.3.1-rc\n  origin/V2.10.0-rc\n  origin/master\n  upstream/V9.9.9-rc\n";

#[test]
fn get_target_issue_latest() {
    match get_target_issue(false, "V(\\d{1,2}\\.\\d{1,2}\\.\\d{1,2})-rc", "origin", "V{{ number }}-rc", false, LISTING) {
        Ok(TargetIssue::Latest { remote, branch, all_branchs }) => {
            assert_eq!(remote, "origin");
            assert_eq!(branch, "V9.9.9-rc");
            assert_eq!(all_branchs, strings(&["HEAD -> origin/master", "V2.3.1-rc", "V2.10.0-rc", "master"]));
        }
        _ => panic!("expected the latest version"),
    }
}

#[test]
fn get_target_issue_choice_and_errors() {
    let re = "V(\\d{1,2}\\.\\d{1,2}\\.\\d{1,2})-rc";
    match get_target_issue(true, re, "origin", "x", false, LISTING) {
        Ok(TargetIssue::ChooseBase { remote, all_branchs }) => {
            assert_eq!(remote, "origin");
            assert_eq!(all_branchs.len(), 4);
        }
        _ => panic!("expected a choice"),
    }
    assert!(matches!(get_target_issue(false, "(", "origin", "x", false, LISTING), Err(TargetError::InvalidVersionPattern)));
    assert!(matches!(get_target_issue(false, re, "(", "x", false, LISTING), Err(TargetError::InvalidRemotePattern)));
    assert!(matches!(get_target_issue(false, "nothing(x)", "origin", "x", false, LISTING), Err(TargetError::NoVersionBranch)));
    assert!(matches!(get_target_issue(false, re, "origin", "x", true, LISTING), Err(TargetError::Version(VersionError::NoVersions))));
    assert!(matches!(get_target_issue(false, "V", "origin", "x", false, LISTING), Err(TargetError::MissingCapture)));
    assert!(matches!(get_target_issue(false, re, "origin", "{{#if}}", false, LISTING), Err(TargetError::Render)));
}

#[test]
fn new_branch_helpers() {
    assert_eq!(new_branch_name("dev_issue#", 42), "dev_issue#42");
    assert_eq!(remote_branch_path("origin", "V1-rc"), "origin/V1-rc");
    assert!(is_element_in_vec(&3, &vec![1, 3]));
    assert!(!is_element_in_vec(&2, &vec![1, 3]));
    for a in ["y", "yes", "Y", "Yes"] {
        assert!(is_yes_answer(a));
    }
    assert!(!is_yes_answer("YES"));
    assert!(!is_yes_answer("n"));
    assert_eq!(branch_already_exists("fatal: a branch named 'x' already exists"), Some(true));
    assert_eq!(branch_already_exists("fatal: invalid reference"), Some(false));
}

// ---------------------------------------------------------------- version and template

#[test]
fn biggerst_version_number_cases() {
    assert_eq!(
        biggerst_version_number(strings(&["2.3.1", "2.10.0", "2.9.9", "2.10.0"])),
        Ok(("2.10.0".to_string(), 1))
    );
    assert_eq!(biggerst_version_number(vec![]), Err(VersionError::NoVersions));
    assert_eq!(biggerst_version_number(strings(&["1.0", "abc"])), Err(VersionError::Unparsable));
    assert_eq!(biggerst_version_number(strings(&["0"])), Err(VersionError::NotListed));
}

#[test]
fn render_template_cases() {
    assert_eq!(render_branch_name_by_tmp("2.10.0", "V{{ number }}-rc").unwrap(), "V2.10.0-rc");
    assert!(render_branch_name_by_tmp("1", "{{#if}}").is_err());
}

// ---------------------------------------------------------------- flow

#[test]
fn command_helpers() {
    let line = command_line("gh issue view 27 --json labels");
    assert_eq!(line.program, "gh");
    assert_eq!(line.args, strings(&["issue", "view", "27", "--json", "labels"]));
    assert_eq!(last_argument("gh issue edit 3 --remove-label lable2"), "lable2");
    assert_eq!(last_argument(""), "");
    assert_eq!(
        error_msg_transcate("failed to update https://github.com/o/r/issues/3: 'x' not found").unwrap(),
        FailureKind::MissingLabel
    );
    assert_eq!(error_msg_transcate("HTTP 401").unwrap(), FailureKind::Other);
}

#[test]
fn flow_plan_and_switch() {
    let request = parse_flow_command(7, "test".to_string(), config());
    assert_eq!(request.target_label, "lable1");
    let flow = request.flow;
    assert_eq!(flow.id, 7);
    match flow.rebase_plan(&strings(&["bug", "lable1"]), "lable1") {
        Ok(RebasePlan::AlreadyLabeled) => {}
        _ => panic!("expected already labelled"),
    }
    match flow.rebase_plan(&strings(&["bug", "todo"]), "lable1") {
        Ok(RebasePlan::Choose(labels)) => assert_eq!(labels, strings(&["todo", "doing", "done"])),
        _ => panic!("expected a choice"),
    }
    let commands = flow.switch_commands(&strings(&["bug", "todo", "doing"]), &strings(&["todo", "doing", "done"]), "doing");
    assert_eq!(
        commands,
        strings(&["gh issue edit 7 --add-label doing", "gh issue edit 7 --remove-label todo"])
    );
}

#[test]
fn flow_invalid_stage_key() {
    let mut c = config();
    c.git_flow = vec![vec![pair("one", "x")]];
    match flow_choice_labels(&c.git_flow) {
        Err(FlowError::InvalidStageKey(k)) => assert_eq!(k, "one"),
        _ => panic!("expected an invalid key"),
    }
    let flow = GitFlowCommand::new(-3, "t".to_string(), c);
    assert!(flow.rebase_plan(&vec![], "lable1").is_err());
    assert_eq!(flow.labels_command(), "gh issue view -3 --json labels");
}

#[test]
fn flow_keys_sorted_numerically() {
    let labels = flow_choice_labels(&vec![vec![pair("10", "ten"), pair("-2", "minus"), pair("+3", "plus")]]).unwrap();
    // "+3" reads as 3, written back as "3", which is not a key: no label for it.
    assert_eq!(labels, strings(&["minus", "ten"]));
}

// ---------------------------------------------------------------- pr and view

#[test]
fn pr_commands() {
    let c = config();
    let q = Pr::target_query(&c, "true").unwrap();
    assert!(q.choice);
    assert_eq!(q.remote_name, "fork");
    assert!(!q.skip_version_re);
    let mut no_fork = config();
    no_fork.fork_remote_name = None;
    assert!(Pr::target_query(&no_fork, "true").is_none());
    assert!(Pr::new(no_fork, false, "b".to_string(), vec![]).is_none());
    let p = Pr::new(c.clone(), true, "V1-rc".to_string(), strings(&["V1-rc"])).unwrap();
    assert_eq!(p.choose_remote_fork(), Some("fork".to_string()));
    assert_eq!(p.push_command("fork", "feat"), "git push fork feat -f");
    assert_eq!(p.pr_create_command("feat", "body.md"), "gh pr create -f -H feat -B V1-rc -F body.md");
    let q = Pr::new(c, false, "V1-rc".to_string(), vec![]).unwrap();
    assert_eq!(q.push_command("fork", "feat"), "git push fork feat");
}

#[test]
fn view_actions_and_commands() {
    assert_eq!(ViewHandler::new("true".to_string()).web_action(), WebAction::DefaultPage);
    assert_eq!(ViewHandler::new("p".to_string()).web_action(), WebAction::PullRequest);
    assert_eq!(ViewHandler::new("pr".to_string()).web_action(), WebAction::PullRequest);
    assert_eq!(ViewHandler::new("i".to_string()).web_action(), WebAction::Issue);
    assert_eq!(ViewHandler::new("issue".to_string()).web_action(), WebAction::Issue);
    assert_eq!(ViewHandler::new("x".to_string()).web_action(), WebAction::Unsupported);
    let h = ViewHandler::new("i".to_string());
    assert_eq!(h.issue_web_command("28"), "gh issue view 28 --web");
    assert_eq!(default_web_command(), "gh issue list --web");
    assert_eq!(pr_list_command(), "gh pr list --json title,number -L 100");
}

#[test]
fn open_pr_command_cases() {
    let h = ViewHandler::new("pr".to_string());
    let prs = vec![
        PrEntry { number: None, title: None },
        PrEntry { number: None, title: Some("no number".to_string()) },
        PrEntry { number: Some(5), title: Some("fix (closed #27)".to_string()) },
        PrEntry { number: Some(9), title: Some("again (closed #28)".to_string()) },
        PrEntry { number: None, title: Some("missing (closed #30)".to_string()) },
    ];
    assert_eq!(h.open_pr_command(&prs, "28"), Ok(Some("gh pr view 9 --web".to_string())));
    assert_eq!(h.open_pr_command(&prs, "29"), Ok(None));
    assert_eq!(h.open_pr_command(&prs, "30"), Err(ViewError::MissingNumber));
}

#[test]
fn command_line_rejoins_to_the_command() {
    for command in ["git push fork feat -f", "a  b ", "single", ""] {
        let line = command_line(command);
        let mut pieces = vec![line.program.clone()];
        pieces.extend(line.args.iter().cloned());
        assert_eq!(pieces.join(" "), command);
        assert!(pieces.iter().all(|p| !p.contains(' ')));
    }
}
