use fterm::error::FtermError;
use fterm::external::{
    poll_step, timeout_error, PollStep, ProcessSpawner, RealCommandRunner,
    args_with_config, remove_carriage_returns, ssh_agent_list_via_run, ssh_keygen_fingerprint_via_run,
    ssh_resolve_via_run, AgentListResult, CommandOutput, CommandRunner, MockCommandRunner,
};

fn output(exit_code: i32, stdout: &str, stderr: &str) -> CommandOutput {
    CommandOutput {
        exit_code,
        stdout: String::from(stdout),
        stderr: String::from(stderr),
    }
}

fn strings(items: &[&str]) -> Vec<String> {
    items.iter().map(|s| String::from(*s)).collect()
}

#[test]
fn mock_run_returns_registered_response() {
    // Arrange
    let mut runner = MockCommandRunner::new().with_run_response(
        "echo hello",
        CommandOutput {
            exit_code: 0,
            stdout: String::from("hello\n"),
            stderr: String::new(),
        },
    );

    // Act
    let out = runner.run("echo", &["hello"], 5).unwrap();

    // Assert
    assert_eq!(out.exit_code, 0);
    assert_eq!(out.stdout, "hello\n");
}

#[test]
fn mock_run_returns_default_for_unknown_command() {
    let mut runner = MockCommandRunner::new();
    let out = runner.run("unknown", &[], 5).unwrap();
    assert_eq!(out.exit_code, 0);
    assert!(out.stdout.is_empty());
}

#[test]
fn mock_ssh_resolve_returns_registered_output() {
    let mut runner = MockCommandRunner::new().with_ssh_resolve("myhost", "hostname myhost\nport 22\n");
    let result = runner.ssh_resolve("myhost", &[]).unwrap();
    assert!(result.contains("hostname myhost"));
}

#[test]
fn mock_agent_list_returns_registered_result() {
    let mut runner = MockCommandRunner::new().with_agent_list(AgentListResult {
        available: true,
        keys: vec![String::from("SHA256:abc123 user@host (RSA)")],
    });
    let result = runner.ssh_agent_list().unwrap();
    assert!(result.available);
    assert_eq!(result.keys.len(), 1);
}

#[test]
fn mock_fingerprint_returns_registered_value() {
    let mut runner = MockCommandRunner::new().with_fingerprint("/home/user/.ssh/id_rsa", "SHA256:abc123");
    let fp = runner.ssh_keygen_fingerprint("/home/user/.ssh/id_rsa").unwrap();
    assert_eq!(fp, "SHA256:abc123");
}

#[test]
fn mock_run_builds_key_correctly_with_args() {
    let mut runner = MockCommandRunner::new().with_run_response(
        "git commit -m msg",
        CommandOutput {
            exit_code: 0,
            stdout: String::from("committed"),
            stderr: String::new(),
        },
    );
    let out = runner.run("git", &["commit", "-m", "msg"], 10).unwrap();
    assert_eq!(out.exit_code, 0);
    assert_eq!(out.stdout, "committed");
}

#[test]
fn mock_ssh_resolve_returns_empty_for_unknown_host() {
    let mut runner = MockCommandRunner::new();
    let result = runner.ssh_resolve("no-such-host", &[]).unwrap();
    assert!(result.is_empty());
}

#[test]
fn mock_agent_list_returns_unavailable_by_default() {
    let mut runner = MockCommandRunner::new();
    let result = runner.ssh_agent_list().unwrap();
    assert!(!result.available);
    assert!(result.keys.is_empty());
}

#[test]
fn mock_fingerprint_returns_empty_for_unknown_path() {
    let mut runner = MockCommandRunner::new();
    let fp = runner.ssh_keygen_fingerprint("/nonexistent/key").unwrap();
    assert!(fp.is_empty());
}

#[test]
fn mock_run_returns_default_for_command_with_no_args() {
    let mut runner = MockCommandRunner::new().with_run_response(
        "ls -la",
        CommandOutput {
            exit_code: 0,
            stdout: String::from("files"),
            stderr: String::new(),
        },
    );
    let out = runner.run("whoami", &[], 5).unwrap();
    assert_eq!(out.exit_code, 0);
    assert!(out.stdout.is_empty());
    assert!(out.stderr.is_empty());
}

#[test]
fn mock_command_key_joins_with_spaces() {
    assert_eq!(MockCommandRunner::command_key("tmux", &[]), "tmux");
    assert_eq!(
        MockCommandRunner::command_key("tmux", &["set-window-option", "-u", "x"]),
        "tmux set-window-option -u x"
    );
}

#[test]
fn mock_last_registration_wins() {
    let mut runner = MockCommandRunner::new()
        .with_run_response("echo a", output(0, "first", ""))
        .with_run_response("echo a", output(3, "second", "oops"));
    let out = runner.run("echo", &["a"], 5).unwrap();
    assert_eq!(out.exit_code, 3);
    assert_eq!(out.stdout, "second");
    assert_eq!(out.stderr, "oops");
}

#[test]
fn mock_ssh_resolve_error_is_reported() {
    let mut runner = MockCommandRunner::new().with_ssh_resolve_error("bad", "Bad configuration option");
    match runner.ssh_resolve("bad", &[]) {
        Err(FtermError::Runner(msg)) => assert_eq!(msg, "Bad configuration option"),
        other => panic!("unexpected: {other:?}"),
    }
}

#[test]
fn mock_fingerprint_error_is_reported() {
    let mut runner = MockCommandRunner::new().with_fingerprint_error("/k", "not a key");
    match runner.ssh_keygen_fingerprint("/k") {
        Err(FtermError::Runner(msg)) => assert_eq!(msg, "not a key"),
        other => panic!("unexpected: {other:?}"),
    }
}

#[test]
fn mock_interactive_response_and_default() {
    let mut runner = MockCommandRunner::new().with_interactive_response("tmux attach", 7);
    assert_eq!(runner.run_interactive("tmux", &["attach"]).unwrap(), 7);
    assert_eq!(runner.run_interactive("tmux", &["detach"]).unwrap(), 0);
}

#[test]
fn ssh_resolve_via_run_passes_config_and_returns_stdout() {
    let mut runner = MockCommandRunner::new().with_run_response(
        "ssh -F /a -F /b -G web",
        output(0, "hostname web.example\n", ""),
    );
    let result = ssh_resolve_via_run(&mut runner, "ssh", "web", &strings(&["/a", "/b"])).unwrap();
    assert_eq!(result, "hostname web.example\n");
}

#[test]
fn ssh_resolve_via_run_reports_nonzero_exit() {
    let mut runner = MockCommandRunner::new().with_run_response("ssh -G web", output(255, "", "  no such host \n"));
    match ssh_resolve_via_run(&mut runner, "ssh", "web", &[]) {
        Err(FtermError::CommandFailed { command, exit_code, stderr }) => {
            assert_eq!(command, "ssh -G web");
            assert_eq!(exit_code, 255);
            assert_eq!(stderr, "no such host");
        }
        other => panic!("unexpected: {other:?}"),
    }
}

#[test]
fn ssh_agent_list_via_run_keeps_non_empty_lines() {
    let mut runner = MockCommandRunner::new().with_run_response(
        "ssh-add -l",
        output(0, "256 SHA256:aaa a@b (ED25519)\n\n3072 SHA256:bbb c@d (RSA)\n", ""),
    );
    let result = ssh_agent_list_via_run(&mut runner, "ssh-add").unwrap();
    assert!(result.available);
    assert_eq!(
        result.keys,
        vec![
            String::from("256 SHA256:aaa a@b (ED25519)"),
            String::from("3072 SHA256:bbb c@d (RSA)")
        ]
    );
}

#[test]
fn ssh_agent_list_via_run_unavailable_on_failure() {
    let mut runner = MockCommandRunner::new().with_run_response("ssh-add -l", output(2, "", "no agent"));
    let result = ssh_agent_list_via_run(&mut runner, "ssh-add").unwrap();
    assert!(!result.available);
    assert!(result.keys.is_empty());
}

#[test]
fn ssh_keygen_fingerprint_via_run_trims_output() {
    let mut runner = MockCommandRunner::new().with_run_response(
        "ssh-keygen -lf /k",
        output(0, "256 SHA256:xyz k (ED25519)\n", ""),
    );
    let fp = ssh_keygen_fingerprint_via_run(&mut runner, "ssh-keygen", "/k").unwrap();
    assert_eq!(fp, "256 SHA256:xyz k (ED25519)");
}

#[test]
fn ssh_keygen_fingerprint_via_run_reports_failure() {
    let mut runner = MockCommandRunner::new().with_run_response("ssh-keygen -lf /k", output(1, "", "bad\n"));
    assert!(ssh_keygen_fingerprint_via_run(&mut runner, "ssh-keygen", "/k").is_err());
}

#[test]
fn args_with_config_prepends_flags() {
    let args = args_with_config(&strings(&["file", "host:~/"]), &strings(&["/c1", "/c2"]));
    assert_eq!(args, strings(&["-F", "/c1", "-F", "/c2", "file", "host:~/"]));
    assert_eq!(args_with_config(&strings(&["x"]), &[]), strings(&["x"]));
}

#[test]
fn remove_carriage_returns_strips_all() {
    assert_eq!(remove_carriage_returns("a\r\nb\r\n\r"), "a\nb\n");
    assert_eq!(remove_carriage_returns("plain"), "plain");
}

#[test]
fn poll_step_collects_kills_or_waits() {
    assert_eq!(poll_step(Some(Some(3)), 10, 1), PollStep::Collect { exit_code: 3 });
    assert_eq!(poll_step(Some(None), 10, 1), PollStep::Collect { exit_code: -1 });
    assert_eq!(poll_step(None, 999, 1), PollStep::WaitMore);
    assert_eq!(poll_step(None, 1000, 1), PollStep::KillForTimeout);
    assert_eq!(poll_step(None, 0, 0), PollStep::KillForTimeout);
    assert_eq!(poll_step(None, u64::MAX, u64::MAX), PollStep::WaitMore);
}

#[test]
fn timeout_error_names_command_and_limit() {
    match timeout_error("ssh-add", 1) {
        FtermError::Runner(m) => assert_eq!(m, "command timed out after 1s: ssh-add"),
        other => panic!("unexpected {other:?}"),
    }
}

#[test]
fn mock_records_each_run_in_order() {
    let mut runner = MockCommandRunner::new();
    runner.run("a", &["1", "2"], 3).unwrap();
    runner.run("b", &[], 0).unwrap();
    let calls = runner.recorded_calls();
    assert_eq!(calls.len(), 2);
    assert_eq!(calls[0].cmd, "a");
    assert_eq!(calls[0].args, vec![String::from("1"), String::from("2")]);
    assert_eq!(calls[0].timeout_secs, 3);
    assert_eq!(calls[1].cmd, "b");
}

#[test]
fn ssh_helpers_use_one_second_timeout() {
    let mut runner = MockCommandRunner::new();
    let _ = ssh_agent_list_via_run(&mut runner, "ssh-add");
    let _ = ssh_keygen_fingerprint_via_run(&mut runner, "ssh-keygen", "/k");
    let _ = ssh_resolve_via_run(&mut runner, "ssh", "web", &[]);
    assert!(runner.recorded_calls().iter().all(|c| c.timeout_secs == 1));
    assert_eq!(runner.recorded_calls().len(), 3);
}

/// A spawner that answers every command with its own command line on stdout
/// (`cmd arg… (timeout)`), exiting with 0 unless the command is `false`.
#[derive(Clone, Copy)]
struct EchoSpawner;

impl ProcessSpawner for EchoSpawner {
    fn spawn_and_wait(&self, cmd: &str, args: &[&str], timeout_secs: u64) -> Result<CommandOutput, FtermError> {
        let mut line = String::from(cmd);
        for a in args {
            line.push(' ');
            line.push_str(a);
        }
        Ok(CommandOutput {
            exit_code: if cmd == "false" { 1 } else { 0 },
            stdout: format!("{line} ({timeout_secs})\n"),
            stderr: String::new(),
        })
    }

    fn spawn_interactive(&self, cmd: &str, _args: &[&str]) -> Result<i32, FtermError> {
        Ok(if cmd == "false" { 1 } else { 0 })
    }

    fn ssh_command(&self, name: &str) -> String {
        format!("/opt/{name}")
    }
}

#[test]
fn real_runner_run_returns_success_for_true() {
    let mut runner = RealCommandRunner::new(EchoSpawner);
    assert_eq!(runner.run("true", &[], 5).unwrap().exit_code, 0);
    assert_eq!(runner.run("false", &[], 5).unwrap().exit_code, 1);
    assert_eq!(runner.run_interactive("false", &[]).unwrap(), 1);
}

#[test]
fn real_runner_helpers_use_resolved_commands_and_helper_timeout() {
    let runner = RealCommandRunner::new(EchoSpawner);
    assert_eq!(
        runner.ssh_resolve("web", &strings(&["/a"])).unwrap(),
        "/opt/ssh -F /a -G web (1)\n"
    );
    let agent = runner.ssh_agent_list().unwrap();
    assert!(agent.available);
    assert_eq!(agent.keys, vec![String::from("/opt/ssh-add -l (1)")]);
    assert_eq!(runner.ssh_keygen_fingerprint("/k").unwrap(), "/opt/ssh-keygen -lf /k (1)");
}
