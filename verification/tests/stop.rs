use chrono::Local;
use fterm::error::FtermError;
use fterm::external::{CommandOutput, MockCommandRunner};
use fterm::logging::stop::{
    compress_log, disconnect_marker, disconnect_marker_now, stop_begin, stop_finish, stop_pipe_pane,
    unset_pane_logging,
};

fn sent(runner: &MockCommandRunner) -> Vec<String> {
    runner
        .recorded_calls()
        .iter()
        .map(|c| {
            let mut line = c.cmd.clone();
            for a in &c.args {
                line.push(' ');
                line.push_str(a);
            }
            format!("{line} ({}s)", c.timeout_secs)
        })
        .collect()
}

fn failing(stderr: &str) -> CommandOutput {
    CommandOutput { exit_code: 1, stdout: String::new(), stderr: String::from(stderr) }
}

#[test]
fn disconnect_marker_format() {
    assert_eq!(
        disconnect_marker("2024-05-06T07:08:09+0900"),
        "[2024-05-06T07:08:09+0900] === Session Disconnected ===\n"
    );
    let now = disconnect_marker_now();
    assert!(now.starts_with('['));
    assert!(now.contains('T'));
    assert!(now.ends_with("] === Session Disconnected ===\n"));
}

#[test]
fn disconnect_marker_has_timestamp_format() {
    let before = Local::now().format("%Y-%m-%dT%H:%M:%S%z").to_string();
    let marker = disconnect_marker_now();
    let after = Local::now().format("%Y-%m-%dT%H:%M:%S%z").to_string();
    assert!(
        marker == disconnect_marker(&before) || marker == disconnect_marker(&after),
        "unexpected marker: {marker}"
    );
    assert!(marker.contains("] === Session Disconnected ==="));
}

#[test]
fn stop_pipe_pane_failure_is_an_error() {
    let mut runner = MockCommandRunner::new().with_run_response("tmux pipe-pane", failing("server not found"));
    assert!(stop_pipe_pane(&mut runner).is_err());
    assert!(stop_pipe_pane(&mut MockCommandRunner::new()).is_ok());
}

#[test]
fn unset_logging_failure_is_non_fatal() {
    let mut runner = MockCommandRunner::new().with_run_response("tmux set-option -p -u @fterm_logging", failing("option not found"));
    assert!(unset_pane_logging(&mut runner).is_ok());
}

#[test]
fn compress_log_reports_gzip_failure() {
    let mut runner = MockCommandRunner::new().with_run_response("gzip --force /tmp/s.log", failing("gzip: No such file or directory"));
    assert!(compress_log(&mut runner, "/tmp/s.log").is_err());
    assert!(compress_log(&mut runner, "/tmp/other.log").is_ok());
}

#[test]
fn returns_error_when_pipe_pane_stop_fails() {
    let mut runner = MockCommandRunner::new().with_run_response("tmux pipe-pane", failing("server not found"));
    match stop_begin(&mut runner, true) {
        Err(FtermError::CommandFailed { command, exit_code, stderr }) => {
            assert_eq!(command, "tmux pipe-pane");
            assert_eq!(exit_code, 1);
            assert_eq!(stderr, "server not found");
        }
        other => panic!("expected a failed pipe-pane, got {other:?}"),
    }
    assert_eq!(sent(&runner), vec!["tmux pipe-pane (5s)"]);
}

#[test]
fn returns_error_when_gzip_fails() {
    let mut runner = MockCommandRunner::new()
        .with_run_response("gzip --force /tmp/session.log", failing("gzip: No such file or directory"));
    match stop_finish(&mut runner, "/tmp/session.log") {
        Err(FtermError::CommandFailed { command, exit_code, .. }) => {
            assert_eq!(command, "gzip --force /tmp/session.log");
            assert_eq!(exit_code, 1);
        }
        other => panic!("expected a failed gzip, got {other:?}"),
    }
}

#[test]
fn missing_log_file_skips_gracefully() {
    assert!(matches!(stop_begin(&mut MockCommandRunner::new(), false), Ok(false)));
}

#[test]
fn existing_log_file_is_finished() {
    let mut runner = MockCommandRunner::new();
    assert!(matches!(stop_begin(&mut runner, true), Ok(true)));
    assert!(stop_finish(&mut runner, "/tmp/session.log").is_ok());
    assert_eq!(
        sent(&runner),
        vec![
            "tmux pipe-pane (5s)",
            "gzip --force /tmp/session.log (30s)",
            "tmux set-option -p -u @fterm_logging (5s)",
        ]
    );
}

#[test]
fn logging_option_is_unset_after_failed_gzip() {
    let mut runner = MockCommandRunner::new().with_run_response("gzip --force /tmp/x.log", failing("disk full"));
    assert!(stop_finish(&mut runner, "/tmp/x.log").is_err());
    assert_eq!(
        sent(&runner),
        vec!["gzip --force /tmp/x.log (30s)", "tmux set-option -p -u @fterm_logging (5s)"]
    );
}

#[test]
fn unset_fterm_logging_failure_is_non_fatal() {
    let mut runner = MockCommandRunner::new()
        .with_run_response("tmux set-option -p -u @fterm_logging", failing("option not found"));
    assert!(stop_finish(&mut runner, "/tmp/nonfatal.log").is_ok());
    assert!(matches!(stop_begin(&mut runner, false), Ok(false)));
}
