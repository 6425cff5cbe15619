use ncommit::branch::parse_branch_issue_id;
use ncommit::config::Config;
use ncommit::flow::{flow_choice_labels, parse_flow_config, GitFlowCommand};
use ncommit::template::render_branch_name_by_tmp;
use ncommit::view::{PrEntry, ViewHandler};

fn pair(k: &str, v: &str) -> (String, String) {
    (k.to_string(), v.to_string())
}

fn sample_config() -> Config {
    Config {
        remote_name: "origin".to_string(),
        dev_issue_re: ".*issue#?(\\d+).*".to_string(),
        version_compare_re: "V(\\d{1,2}\\.\\d{1,2}\\.\\d{1,2})-rc".to_string(),
        enable_auto_fetch: true,
        issue_title_filter_re: "\\[(.*)\\](.*)".to_string(),
        dev_issue_name_header: "dev_issue#".to_string(),
        commit_append_nodeman_msg: false,
        commit_append_msg: "(wf -l)".to_string(),
        commit_link_description: "closed".to_string(),
        remote_branch_name_template: "V{{ number }}-rc".to_string(),
        commit_custom_params: "".to_string(),
        fork_remote_name: None,
        git_flow: vec![
            vec![pair("3", "lable3"), pair("1", "lable1")],
            vec![pair("2", "lable2"), pair("1", "stage-one")],
        ],
    }
}

#[test]
fn render_shoud_work() {
    let temp = "v{{ number }}-dev";
    let version = "1.0.0";
    assert_eq!(
        render_branch_name_by_tmp(version, temp).unwrap(),
        "v1.0.0-dev".to_string()
    )
}

#[test]
fn test_branch_re() {
    let config = sample_config();
    let branch_name = "_V2.3.X/dev_issue#27".to_string();
    let id = parse_branch_issue_id(&config, &branch_name);
    assert_eq!(id, Ok("27".to_string()));
}

#[test]
fn test_view_pr() {
    let handler = ViewHandler::new("pr".to_string());
    let prs = vec![PrEntry { number: Some(31), title: Some("view (closed #28)".to_string()) }];
    let cmd = handler.open_pr_command(&prs, "28").unwrap();
    assert_eq!(cmd, Some("gh pr view 31 --web".to_string()));
}

#[test]
fn test_flow_pars() {
    let configs = parse_flow_config();
    assert_eq!(configs.len(), 3);
    for (i, (key, labels)) in configs.iter().enumerate() {
        assert_eq!(key, &(i + 1).to_string());
        assert_eq!(labels, &vec![pair("label", &format!("lable{}", i + 1))]);
    }
    let flow_command = GitFlowCommand::new(27, "test".to_string(), sample_config());
    assert_eq!(flow_command.labels_command(), "gh issue view 27 --json labels");
}

#[test]
fn test_flow_config_parse() {
    let config = sample_config();
    let labels = flow_choice_labels(&config.git_flow).unwrap();
    // keys 3, 1, 2, 1 sorted: 1, 1, 2, 3; each key is looked up in every map.
    assert_eq!(
        labels,
        vec!["lable1", "stage-one", "lable1", "stage-one", "lable2", "lable3"]
    );
}
