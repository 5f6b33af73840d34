use chrono::Local;
use fterm::command::scp::{
    agent_verdict, generate_scp_log_path, generate_scp_log_path_now, join_hosts, scp_plan, scp_result, scp_start,
    ScpStart, scp_host_value, scp_pane_title, setup_scp_tmux,
    teardown_scp_session, validation_verdict,
};
use fterm::error::FtermError;
use fterm::external::{AgentListResult, CommandOutput, MockCommandRunner};
use fterm::validate::orchestrator::{CheckLevel, CheckMessage, ValidationResult};

#[test]
fn generate_scp_log_path_contains_expected_parts() {
    let path = generate_scp_log_path_now("/logs", "main-1%3", "deploy", "host1_host2");
    assert!(path.contains("scp_deploy@host1_host2.log"));
}

#[test]
fn generate_scp_log_path_single_host() {
    let path = generate_scp_log_path_now("/logs", "main-1%3", "root", "web-server");
    assert!(path.contains("scp_root@web-server.log"));
    assert!(path.ends_with(".log"));
}

#[test]
fn generate_scp_log_path_contains_date_directory() {
    let now = Local::now();
    let expected_date = now.format("%Y/%m/%d").to_string();
    let path = generate_scp_log_path_now("/logs", "s-0%1", "user", "host");
    assert!(path.contains(&expected_date), "path should contain date directory: {path}");
}

#[test]
fn generate_scp_log_path_contains_timestamp_prefix() {
    let now = Local::now();
    let expected_prefix = now.format("%Y%m%dT%H%M").to_string();
    let path = generate_scp_log_path_now("/logs", "s-0%1", "admin", "db-server");
    assert!(path.contains(&expected_prefix), "path should contain timestamp prefix: {path}");
}

#[test]
fn generate_scp_log_path_special_characters_in_user() {
    let path = generate_scp_log_path_now("/logs", "x", "deploy-ci", "prod_staging");
    assert!(path.contains("scp_deploy-ci@prod_staging.log"));
}

#[test]
fn generate_scp_log_path_exact() {
    assert_eq!(
        generate_scp_log_path("/logs/", "2024/05/06", "20240506T070809", "main-1%3", "u", "a_b"),
        "/logs/2024/05/06/20240506T070809_main-1%3_scp_u@a_b.log"
    );
    assert_eq!(generate_scp_log_path("", "d", "t", "i", "u", "h"), "d/t_i_scp_u@h.log");
    assert_eq!(generate_scp_log_path("/p", "/abs", "t", "i", "u", "h"), "/abs/t_i_scp_u@h.log");
}

#[test]
fn join_hosts_uses_underscores() {
    let hosts = vec![String::from("host1"), String::from("host2"), String::from("h3")];
    assert_eq!(join_hosts(&hosts), "host1_host2_h3");
    assert_eq!(join_hosts(&[String::from("solo")]), "solo");
    assert_eq!(join_hosts(&[]), "");
}

#[test]
fn validation_verdict_reports_by_level() {
    let clean = ValidationResult { messages: Vec::new(), error_count: 0, warn_count: 0 };
    assert_eq!(validation_verdict(&clean), (None, Vec::new()));

    let warned = ValidationResult {
        messages: vec![CheckMessage { level: CheckLevel::Warn, text: String::from("w") }],
        error_count: 0,
        warn_count: 1,
    };
    assert_eq!(
        validation_verdict(&warned),
        (None, vec![String::from("\x1b[33m1 warning(s)\x1b[0m")])
    );

    let failed = ValidationResult {
        messages: vec![
            CheckMessage { level: CheckLevel::Error, text: String::from("[basic] no user") },
            CheckMessage { level: CheckLevel::Info, text: String::from("[cm_dir] ok") },
        ],
        error_count: 1,
        warn_count: 0,
    };
    assert_eq!(
        validation_verdict(&failed),
        (
            Some(1),
            vec![
                String::from("\x1b[31m1 error(s)\x1b[0m"),
                String::from("  [basic] no user"),
                String::from("  [cm_dir] ok"),
            ]
        )
    );
}

#[test]
fn generate_scp_log_path_now_has_expected_shape() {
    let before = Local::now();
    let path = generate_scp_log_path_now("/logs", "s-1%2", "deploy", "a_b");
    let after = Local::now();
    assert!(path.ends_with("_s-1%2_scp_deploy@a_b.log"));
    let expected = |t: chrono::DateTime<Local>| {
        format!("/logs/{}/{}_s-1%2_scp_deploy@a_b.log", t.format("%Y/%m/%d"), t.format("%Y%m%dT%H%M%S"))
    };
    assert!(path == expected(before) || path == expected(after), "unexpected path: {path}");
}

fn failing(stderr: &str) -> CommandOutput {
    CommandOutput { exit_code: 1, stdout: String::new(), stderr: String::from(stderr) }
}

fn sent(runner: &MockCommandRunner) -> Vec<String> {
    runner
        .recorded_calls()
        .iter()
        .map(|c| {
            let mut line = c.cmd.clone();
            for a in &c.args {
                line.push(' ');
                line.push_str(a);
            }
            line
        })
        .collect()
}

#[test]
fn teardown_scp_session_does_not_panic() {
    let mut runner = MockCommandRunner::new();
    let report = teardown_scp_session(&mut runner, "");
    assert!(report.reset_style.is_ok());
    assert!(report.restore_title.is_ok());
    assert!(report.unset_ssh_host.is_ok());
    assert!(report.enable_rename.is_ok());
}

#[test]
fn teardown_scp_session_single_host_success() {
    let mut runner = MockCommandRunner::new();
    let report = teardown_scp_session(&mut runner, "production");
    assert!(report.restore_title.is_ok());
    assert!(report.enable_rename.is_ok());
    assert_eq!(
        sent(&runner),
        vec![
            "tmux select-pane -P default",
            "tmux select-pane -T production",
            "tmux set-option -p -u @fterm_ssh_host",
            "tmux set-window-option allow-rename on",
            "tmux set-window-option automatic-rename on",
        ]
    );
}

#[test]
fn teardown_scp_session_failure_does_not_panic() {
    let mut runner =
        MockCommandRunner::new().with_run_response("tmux set-window-option allow-rename on", failing("no window"));
    let report = teardown_scp_session(&mut runner, "staging");
    assert!(report.reset_style.is_ok());
    assert!(report.enable_rename.is_err());
    assert_eq!(sent(&runner).len(), 4);
}

#[test]
fn teardown_scp_session_handles_runner_errors() {
    let mut runner = MockCommandRunner::new()
        .with_run_response("tmux select-pane -P default", failing("no server"))
        .with_run_response("tmux select-pane -T ", failing("no server"))
        .with_run_response("tmux set-option -p -u @fterm_ssh_host", failing("no server"));
    let report = teardown_scp_session(&mut runner, "");
    match report.restore_title {
        Err(FtermError::CommandFailed { command, exit_code, stderr }) => {
            assert_eq!(command, "tmux select-pane -T ");
            assert_eq!(exit_code, 1);
            assert_eq!(stderr, "no server");
        }
        other => panic!("expected a failed title restore, got {other:?}"),
    }
    assert!(report.reset_style.is_err());
    assert!(report.unset_ssh_host.is_err());
    assert!(report.enable_rename.is_ok());
    assert_eq!(sent(&runner).len(), 5);
}

#[test]
fn setup_scp_session_handles_pane_errors() {
    let mut runner = MockCommandRunner::new()
        .with_run_response("tmux select-pane -T scp:errhost", failing("no pane"))
        .with_run_response("tmux set-window-option automatic-rename off", failing("no window"))
        .with_run_response("tmux set-option -p @fterm_ssh_host scp:errhost", failing("no pane"));
    let report = setup_scp_tmux(&mut runner, "errhost");
    assert!(report.set_title.is_err());
    assert!(report.disable_rename.is_err());
    assert!(report.set_ssh_host.is_err());
    assert_eq!(
        sent(&runner),
        vec![
            "tmux select-pane -T scp:errhost",
            "tmux set-window-option automatic-rename off",
            "tmux set-option -p @fterm_ssh_host scp:errhost",
        ]
    );
    let mut fine = MockCommandRunner::new();
    assert!(setup_scp_tmux(&mut fine, "a_b").set_title.is_ok());
    assert_eq!(
        sent(&fine),
        vec![
            "tmux select-pane -T scp:a_b",
            "tmux set-window-option automatic-rename off",
            "tmux set-window-option allow-rename off",
            "tmux set-option -p @fterm_ssh_host scp:a b",
        ]
    );
}

#[test]
fn scp_start_decides_how_to_begin() {
    let hosts = vec![String::from("h")];
    assert_eq!(scp_start(&[], false, Some(1)), ScpStart::ExecDirectly);
    assert_eq!(scp_start(&hosts, true, Some(1)), ScpStart::ExecDirectly);
    assert_eq!(scp_start(&hosts, false, Some(1)), ScpStart::Stop(1));
    assert_eq!(scp_start(&hosts, false, Some(0)), ScpStart::Stop(0));
    assert_eq!(scp_start(&hosts, false, None), ScpStart::Proceed);
}

#[test]
fn scp_plan_names_user_and_hosts() {
    let hosts = vec![String::from("a"), String::from("b")];
    assert_eq!(scp_plan(None, &hosts), (String::from("unknown"), String::from("a_b")));
    assert_eq!(scp_plan(Some(String::from("deploy")), &hosts), (String::from("deploy"), String::from("a_b")));
}

#[test]
fn scp_result_is_scp_exit_status() {
    let mut runner = MockCommandRunner::new().with_run_response("tmux select-pane -P default", failing("x"));
    let report = teardown_scp_session(&mut runner, "");
    assert_eq!(scp_result(3, report), 3);
}

#[test]
fn scp_host_value_separates_hosts_by_spaces() {
    assert_eq!(scp_host_value("host1_host2"), "scp:host1 host2");
    assert_eq!(scp_host_value(""), "scp:");
    assert_eq!(scp_pane_title("host1_host2"), "scp:host1_host2");
}

#[test]
fn agent_verdict_stops_without_agent() {
    let missing = AgentListResult { available: false, keys: Vec::new() };
    assert_eq!(
        agent_verdict(&missing),
        Some((1, String::from("Error: SSH agent is not available. Start ssh-agent first.")))
    );
    let present = AgentListResult { available: true, keys: vec![String::from("k")] };
    assert_eq!(agent_verdict(&present), None);
}
