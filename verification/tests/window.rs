use fterm::error::FtermError;
use fterm::external::{CommandOutput, MockCommandRunner};
use fterm::tmux::window::{
    decrement_ssh_count, disable_rename, enable_rename, increment_ssh_count, read_ssh_count, set_window_option,
    unset_window_option, write_ssh_count,
};

fn mock_with_count(count: u32) -> MockCommandRunner {
    MockCommandRunner::new().with_run_response(
        "tmux show-window-option -v @fterm_ssh_count",
        CommandOutput {
            exit_code: 0,
            stdout: count.to_string(),
            stderr: String::new(),
        },
    )
}

/// The commands handed to the mock, as `"cmd arg… (timeout)"`.
fn sent(runner: &MockCommandRunner) -> Vec<String> {
    runner
        .recorded_calls()
        .iter()
        .map(|c| {
            let mut line = c.cmd.clone();
            for a in &c.args {
                line.push(' ');
                line.push_str(a);
            }
            format!("{line} ({}s)", c.timeout_secs)
        })
        .collect()
}

fn failing(stderr: &str) -> CommandOutput {
    CommandOutput {
        exit_code: 1,
        stdout: String::new(),
        stderr: String::from(stderr),
    }
}

#[test]
fn increment_from_zero() {
    let mut runner = mock_with_count(0);
    let result = increment_ssh_count(&mut runner);
    assert!(result.is_ok());
}

#[test]
fn increment_from_existing_value() {
    let mut runner = mock_with_count(2);
    let result = increment_ssh_count(&mut runner);
    assert!(result.is_ok());
    assert_eq!(
        sent(&runner),
        vec![
            "tmux show-window-option -v @fterm_ssh_count (5s)",
            "tmux set-window-option @fterm_ssh_count 3 (5s)",
            "tmux set-window-option automatic-rename off (5s)",
            "tmux set-window-option allow-rename off (5s)",
        ]
    );
}

#[test]
fn decrement_to_zero_restores_rename() {
    let mut runner = mock_with_count(1);
    let result = decrement_ssh_count(&mut runner);
    assert!(result.is_ok());
    assert_eq!(
        sent(&runner),
        vec![
            "tmux show-window-option -v @fterm_ssh_count (5s)",
            "tmux set-window-option -u @fterm_ssh_count (5s)",
            "tmux set-window-option allow-rename on (5s)",
            "tmux set-window-option automatic-rename on (5s)",
        ]
    );
}

#[test]
fn decrement_above_zero_keeps_rename_off() {
    let mut runner = mock_with_count(3);
    let result = decrement_ssh_count(&mut runner);
    assert!(result.is_ok());
    assert_eq!(
        sent(&runner),
        vec![
            "tmux show-window-option -v @fterm_ssh_count (5s)",
            "tmux set-window-option @fterm_ssh_count 2 (5s)",
        ]
    );
}

#[test]
fn unreadable_count_sends_nothing_more() {
    let mut runner = MockCommandRunner::new().with_run_response(
        "tmux show-window-option -v @fterm_ssh_count",
        CommandOutput { exit_code: 0, stdout: String::from("many"), stderr: String::new() },
    );
    assert!(matches!(increment_ssh_count(&mut runner), Err(FtermError::InvalidCount(_))));
    assert_eq!(sent(&runner), vec!["tmux show-window-option -v @fterm_ssh_count (5s)"]);
}

#[test]
fn decrement_from_zero_stays_at_zero() {
    let mut runner = mock_with_count(0);
    let result = decrement_ssh_count(&mut runner);
    assert!(result.is_ok());
}

#[test]
fn read_ssh_count_default_on_error() {
    let mut runner = MockCommandRunner::new().with_run_response(
        "tmux show-window-option -v @fterm_ssh_count",
        CommandOutput {
            exit_code: 1,
            stdout: String::new(),
            stderr: String::from("unknown option"),
        },
    );
    let count = read_ssh_count(&mut runner).unwrap();
    assert_eq!(count, 0);
}

#[test]
fn read_ssh_count_default_on_empty() {
    let mut runner = MockCommandRunner::new().with_run_response(
        "tmux show-window-option -v @fterm_ssh_count",
        CommandOutput {
            exit_code: 0,
            stdout: String::new(),
            stderr: String::new(),
        },
    );
    let count = read_ssh_count(&mut runner).unwrap();
    assert_eq!(count, 0);
}

#[test]
fn disable_rename_success() {
    let mut runner = MockCommandRunner::new();
    let result = disable_rename(&mut runner);
    assert!(result.is_ok());
    assert_eq!(
        sent(&runner),
        vec!["tmux set-window-option automatic-rename off (5s)", "tmux set-window-option allow-rename off (5s)"]
    );
}

#[test]
fn enable_rename_turns_both_back_on() {
    let mut runner = MockCommandRunner::new();
    assert!(enable_rename(&mut runner).is_ok());
    assert_eq!(
        sent(&runner),
        vec!["tmux set-window-option allow-rename on (5s)", "tmux set-window-option automatic-rename on (5s)"]
    );
}

#[test]
fn set_window_option_failure() {
    let mut runner = MockCommandRunner::new().with_run_response(
        "tmux set-window-option automatic-rename off",
        CommandOutput {
            exit_code: 1,
            stdout: String::new(),
            stderr: String::from("server not found"),
        },
    );
    let result = set_window_option(&mut runner, "automatic-rename", "off");
    assert!(result.is_err());
}

#[test]
fn read_ssh_count_parses_trimmed_value() {
    let mut runner = MockCommandRunner::new().with_run_response(
        "tmux show-window-option -v @fterm_ssh_count",
        CommandOutput {
            exit_code: 0,
            stdout: String::from(" 12\n"),
            stderr: String::new(),
        },
    );
    assert_eq!(read_ssh_count(&mut runner).unwrap(), 12);
}

#[test]
fn read_ssh_count_rejects_non_number() {
    let mut runner = MockCommandRunner::new().with_run_response(
        "tmux show-window-option -v @fterm_ssh_count",
        CommandOutput {
            exit_code: 0,
            stdout: String::from("many\n"),
            stderr: String::new(),
        },
    );
    match read_ssh_count(&mut runner) {
        Err(FtermError::InvalidCount(text)) => assert_eq!(text, "many"),
        other => panic!("unexpected: {other:?}"),
    }
}

#[test]
fn written_count_reads_back() {
    // The value that write_ssh_count sets, printed back by tmux, reads as the same count.
    for n in [0u32, 7, 10, 4_294_967_295] {
        let mut runner = mock_with_count(n);
        assert_eq!(read_ssh_count(&mut runner).unwrap(), n);
        assert!(write_ssh_count(&mut runner, n).is_ok());
    }
}

#[test]
fn increment_fails_when_writing_new_count_fails() {
    let mut runner = mock_with_count(4).with_run_response("tmux set-window-option @fterm_ssh_count 5", failing("no window"));
    assert!(increment_ssh_count(&mut runner).is_err());
}

#[test]
fn increment_saturates_at_max() {
    // u32::MAX stays u32::MAX: the write of 4294967295 is what fails here.
    let mut runner = mock_with_count(u32::MAX)
        .with_run_response("tmux set-window-option @fterm_ssh_count 4294967295", failing("x"));
    assert!(increment_ssh_count(&mut runner).is_err());
}

#[test]
fn decrement_to_zero_unsets_the_count() {
    let mut runner = mock_with_count(1).with_run_response("tmux set-window-option -u @fterm_ssh_count", failing("x"));
    assert!(decrement_ssh_count(&mut runner).is_err());
    let mut runner = mock_with_count(1).with_run_response("tmux set-window-option automatic-rename on", failing("x"));
    assert!(decrement_ssh_count(&mut runner).is_err());
}

#[test]
fn decrement_above_one_writes_lower_count() {
    let mut runner = mock_with_count(3).with_run_response("tmux set-window-option @fterm_ssh_count 2", failing("x"));
    assert!(decrement_ssh_count(&mut runner).is_err());
    // No rename restoration happens above zero.
    let mut runner = mock_with_count(3).with_run_response("tmux set-window-option allow-rename on", failing("x"));
    assert!(decrement_ssh_count(&mut runner).is_ok());
}

#[test]
fn unset_window_option_failure() {
    let mut runner = MockCommandRunner::new().with_run_response("tmux set-window-option -u @x", failing("no"));
    assert!(unset_window_option(&mut runner, "@x").is_err());
    assert!(unset_window_option(&mut runner, "@y").is_ok());
}

#[test]
fn connect_then_disconnect_reads_back_each_count() {
    // A window with 4 connections: the increment writes 5, which a tmux holding it
    // reports back to the decrement, which writes 4 again (the failing write of any
    // other value would surface as an error).
    let mut before = mock_with_count(4)
        .with_run_response("tmux set-window-option @fterm_ssh_count 4", failing("unexpected"));
    assert!(increment_ssh_count(&mut before).is_ok());
    let mut after = mock_with_count(5)
        .with_run_response("tmux set-window-option @fterm_ssh_count 5", failing("unexpected"));
    assert!(decrement_ssh_count(&mut after).is_ok());
    assert_eq!(read_ssh_count(&mut after).unwrap(), 5);
    let mut wrong = mock_with_count(5).with_run_response("tmux set-window-option @fterm_ssh_count 4", failing("checked"));
    assert!(decrement_ssh_count(&mut wrong).is_err());
}
