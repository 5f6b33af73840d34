use fterm::error::FtermError;
use fterm::external::MockCommandRunner;
use fterm::validate::orchestrator::{
    count_levels, first_value_with_key, format_summary, parse_ssh_g_value, parse_ssh_g_values,
    run_all_checks, ssh_g_entries, values_with_key, CheckLevel, CheckMessage, ConfigChecks,
    ValidationResult,
};

fn msg(level: CheckLevel, text: &str) -> CheckMessage {
    CheckMessage {
        level,
        text: String::from(text),
    }
}

#[test]
fn parse_ssh_g_value_finds_key() {
    let output = "hostname example.com\nport 22\nuser admin\n";
    let hostname = parse_ssh_g_value(output, "hostname");
    let port = parse_ssh_g_value(output, "port");
    assert_eq!(hostname, Some(String::from("example.com")));
    assert_eq!(port, Some(String::from("22")));
}

#[test]
fn parse_ssh_g_value_case_insensitive() {
    let output = "HostName example.com\n";
    let result = parse_ssh_g_value(output, "hostname");
    assert_eq!(result, Some(String::from("example.com")));
}

#[test]
fn parse_ssh_g_value_returns_none_for_missing_key() {
    let output = "hostname example.com\n";
    let result = parse_ssh_g_value(output, "user");
    assert!(result.is_none());
}

#[test]
fn parse_ssh_g_values_collects_all() {
    let output = "identityfile ~/.ssh/id_rsa\nidentityfile ~/.ssh/id_ed25519\n";
    let result = parse_ssh_g_values(output, "identityfile");
    assert_eq!(result.len(), 2);
    assert_eq!(result[0], "~/.ssh/id_rsa");
    assert_eq!(result[1], "~/.ssh/id_ed25519");
}

#[test]
fn count_levels_counts_correctly() {
    let msgs = vec![
        msg(CheckLevel::Error, "e1"),
        msg(CheckLevel::Warn, "w1"),
        msg(CheckLevel::Error, "e2"),
    ];
    let (errors, warns) = count_levels(&msgs);
    assert_eq!(errors, 2);
    assert_eq!(warns, 1);
}

#[test]
fn format_summary_all_passed() {
    let result = ValidationResult {
        messages: Vec::new(),
        error_count: 0,
        warn_count: 0,
    };
    let summary = format_summary(&result);
    assert!(summary.contains("All checks passed"));
}

#[test]
fn format_summary_with_errors_and_warnings() {
    let result = ValidationResult {
        messages: Vec::new(),
        error_count: 2,
        warn_count: 3,
    };
    let summary = format_summary(&result);
    assert!(summary.contains("2 error(s)"));
    assert!(summary.contains("3 warning(s)"));
}

#[test]
fn count_levels_empty_messages_returns_zero() {
    let msgs: Vec<CheckMessage> = Vec::new();
    let (errors, warns) = count_levels(&msgs);
    assert_eq!(errors, 0);
    assert_eq!(warns, 0);
}

#[test]
fn format_summary_only_errors_no_warnings() {
    let result = ValidationResult {
        messages: Vec::new(),
        error_count: 3,
        warn_count: 0,
    };
    let summary = format_summary(&result);
    assert!(summary.contains("3 error(s)"));
    assert!(!summary.contains("warning(s)"));
}

#[test]
fn format_summary_only_warnings_no_errors() {
    let result = ValidationResult {
        messages: Vec::new(),
        error_count: 0,
        warn_count: 5,
    };
    let summary = format_summary(&result);
    assert!(summary.contains("5 warning(s)"));
    assert!(!summary.contains("error(s)"));
}

#[test]
fn parse_ssh_g_value_empty_output_returns_none() {
    let result = parse_ssh_g_value("", "hostname");
    assert!(result.is_none());
}

#[test]
fn parse_ssh_g_values_empty_output_returns_empty_vec() {
    let result = parse_ssh_g_values("", "identityfile");
    assert!(result.is_empty());
}

#[test]
fn parse_ssh_g_values_no_matching_key_returns_empty_vec() {
    let output = "hostname example.com\nport 22\nuser admin\n";
    let result = parse_ssh_g_values(output, "identityfile");
    assert!(result.is_empty());
}

#[test]
fn format_summary_exact_text() {
    let both = ValidationResult { messages: Vec::new(), error_count: 2, warn_count: 13 };
    assert_eq!(format_summary(&both), "\x1b[31m2 error(s)\x1b[0m, \x1b[33m13 warning(s)\x1b[0m");
    let none = ValidationResult { messages: Vec::new(), error_count: 0, warn_count: 0 };
    assert_eq!(format_summary(&none), "\x1b[32m\u{2713} All checks passed.\x1b[0m");
}

#[test]
fn parse_ssh_g_value_is_first_of_values() {
    let output = "IdentityFile /a\r\nport 22\nidentityfile /b\nidentityfile\nidentityfile  /c";
    let values = parse_ssh_g_values(output, "IDENTITYFILE");
    assert_eq!(values, vec![String::from("/a"), String::from("/b"), String::from(" /c")]);
    assert_eq!(parse_ssh_g_value(output, "identityfile"), Some(String::from("/a")));
}

#[test]
fn count_levels_ignores_info() {
    let msgs = vec![msg(CheckLevel::Info, "i"), msg(CheckLevel::Warn, "w"), msg(CheckLevel::Info, "j")];
    assert_eq!(count_levels(&msgs), (0, 1));
}

/// Checks with fixed answers, recording nothing.
struct FixedChecks {
    syntax_error: bool,
    duplicate_fails: bool,
}

impl ConfigChecks for FixedChecks {
    fn cm_dir(&self, _ssh_home: &str) -> Vec<CheckMessage> {
        vec![msg(CheckLevel::Info, "[cm_dir] ok")]
    }

    fn syntax(&self, _config_args: &[String]) -> Result<Vec<CheckMessage>, FtermError> {
        if self.syntax_error {
            Ok(vec![msg(CheckLevel::Error, "[syntax] bad option")])
        } else {
            Ok(Vec::new())
        }
    }

    fn duplicate(&self, _config_files: &[String]) -> Result<Vec<CheckMessage>, FtermError> {
        if self.duplicate_fails {
            Err(FtermError::Runner(String::from("unreadable")))
        } else {
            Ok(vec![msg(CheckLevel::Warn, "[duplicate] twice")])
        }
    }

    fn host_prefix(&self, host: &str, _config_files: &[String]) -> Result<Vec<CheckMessage>, FtermError> {
        if host == "broken" {
            Err(FtermError::Runner(String::from("x")))
        } else {
            Ok(vec![msg(CheckLevel::Info, &format!("[prefix] {host}"))])
        }
    }

    fn basic(&self, ssh_g_output: &str, host: &str) -> Vec<CheckMessage> {
        if ssh_g_output.contains("user ") {
            Vec::new()
        } else {
            vec![msg(CheckLevel::Error, &format!("[basic] {host}: no user"))]
        }
    }

    fn identity(&self, _ssh_g_output: &str, host: &str) -> Result<Vec<CheckMessage>, FtermError> {
        Ok(vec![msg(CheckLevel::Warn, &format!("[identity] {host}"))])
    }

    fn proxyjump(
        &self,
        _ssh_g_output: &str,
        _host: &str,
        _config_args: &[String],
        _hosts: &[String],
        visited: &mut Vec<String>,
    ) -> Result<Vec<CheckMessage>, FtermError> {
        Err(FtermError::Runner(format!("visited {}", visited.len())))
    }

    fn control_path(&self, _ssh_g_output: &str, host: &str) -> Vec<CheckMessage> {
        vec![msg(CheckLevel::Info, &format!("[control_path] {host}"))]
    }
}

fn texts(result: &ValidationResult) -> Vec<String> {
    result.messages.iter().map(|m| m.text.clone()).collect()
}

#[test]
fn run_all_checks_stops_after_syntax_errors() {
    let runner = MockCommandRunner::new();
    let checks = FixedChecks { syntax_error: true, duplicate_fails: false };
    let hosts = vec![String::from("myhost")];
    let result = run_all_checks(&runner, &checks, "/home/u/.ssh", &[], &hosts, &[]).unwrap();
    assert_eq!(texts(&result), vec!["[cm_dir] ok", "[syntax] bad option"]);
    assert_eq!((result.error_count, result.warn_count), (1, 0));
}

#[test]
fn run_all_checks_runs_per_host_checks_in_order() {
    let runner = MockCommandRunner::new()
        .with_ssh_resolve("a", "hostname a\nuser deploy\n")
        .with_ssh_resolve_error("b", "cannot resolve");
    let checks = FixedChecks { syntax_error: false, duplicate_fails: false };
    let hosts = vec![String::from("a"), String::from("b"), String::from("c")];
    let result = run_all_checks(&runner, &checks, "/h", &[], &hosts, &[]).unwrap();
    assert_eq!(
        texts(&result),
        vec![
            "[cm_dir] ok",
            "[duplicate] twice",
            "[prefix] a",
            "[identity] a",
            "[control_path] a",
            "[prefix] b",
            "[prefix] c",
            "[basic] c: no user",
            "[identity] c",
            "[control_path] c",
        ]
    );
    assert_eq!((result.error_count, result.warn_count), (1, 3));
}

#[test]
fn run_all_checks_returns_duplicate_check_failure() {
    let runner = MockCommandRunner::new();
    let checks = FixedChecks { syntax_error: false, duplicate_fails: true };
    let result = run_all_checks(&runner, &checks, "/h", &[], &[], &[]);
    assert!(matches!(result, Err(FtermError::Runner(_))));
}

#[test]
fn run_all_checks_skips_failed_host_prefix() {
    let runner = MockCommandRunner::new().with_ssh_resolve_error("broken", "no");
    let checks = FixedChecks { syntax_error: false, duplicate_fails: false };
    let hosts = vec![String::from("broken")];
    let result = run_all_checks(&runner, &checks, "/h", &[], &hosts, &[]).unwrap();
    assert_eq!(texts(&result), vec!["[cm_dir] ok", "[duplicate] twice"]);
}

fn pair(k: &str, v: &str) -> (String, String) {
    (String::from(k), String::from(v))
}

#[test]
fn ssh_g_entries_lowercases_keys_and_skips_lines_without_space() {
    let entries = ssh_g_entries("HostName Example.COM\nnospace\nPort 22\r\n\nForwardAgent yes no");
    assert_eq!(
        entries,
        vec![pair("hostname", "Example.COM"), pair("port", "22"), pair("forwardagent", "yes no")]
    );
}

#[test]
fn values_with_key_selects_in_order() {
    let entries = vec![pair("identityfile", "/a"), pair("port", "22"), pair("identityfile", "/b")];
    assert_eq!(values_with_key(&entries, "identityfile"), vec![String::from("/a"), String::from("/b")]);
    assert!(values_with_key(&entries, "user").is_empty());
    assert_eq!(first_value_with_key(&entries, "identityfile"), Some(String::from("/a")));
    assert_eq!(first_value_with_key(&entries, "port"), Some(String::from("22")));
    assert_eq!(first_value_with_key(&entries, "user"), None);
}

#[test]
fn summary_mentions_only_what_was_found() {
    let summary = |e: usize, w: usize| format_summary(&ValidationResult { messages: Vec::new(), error_count: e, warn_count: w });
    assert!(summary(3, 0).contains("3 error(s)"));
    assert!(!summary(3, 0).contains("warning(s)"));
    assert!(summary(0, 5).contains("5 warning(s)"));
    assert!(!summary(0, 5).contains("error(s)"));
    assert!(!summary(0, 5).contains("All checks passed"));
    assert!(summary(0, 0).contains("All checks passed"));
    assert!(!summary(0, 0).contains("error(s)"));
    assert!(summary(2, 4).contains("error(s)") && summary(2, 4).contains("warning(s)"));
}

#[test]
fn ascii_key_lookup_ignores_case() {
    let output = "hostname example.com\nport 22\n";
    assert_eq!(parse_ssh_g_value(output, "HostName"), parse_ssh_g_value(output, "hostname"));
    assert_eq!(parse_ssh_g_value(output, "PORT").as_deref(), Some("22"));
    assert_eq!(parse_ssh_g_values(output, "Port"), vec![String::from("22")]);
}
