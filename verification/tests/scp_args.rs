use fterm::util::scp_args::extract_hosts;

fn s(args: &[&str]) -> Vec<String> {
    args.iter().map(|a| String::from(*a)).collect()
}

#[test]
fn single_remote_host() {
    let result = extract_hosts(&s(&["local.txt", "server1:/remote/path"]));
    assert_eq!(result, vec!["server1"]);
}

#[test]
fn user_at_host() {
    let result = extract_hosts(&s(&["user@server2:/path", "local.txt"]));
    assert_eq!(result, vec!["server2"]);
}

#[test]
fn multiple_hosts_deduped() {
    let result = extract_hosts(&s(&["server1:/a", "server2:/b", "server1:/c"]));
    assert_eq!(result, vec!["server1", "server2"]);
}

#[test]
fn local_file_only() {
    let result = extract_hosts(&s(&["local1.txt", "local2.txt"]));
    assert!(result.is_empty());
}

#[test]
fn skip_option_flags() {
    let result = extract_hosts(&s(&["-P", "22", "-r", "server:/path"]));
    assert_eq!(result, vec!["server"]);
}

#[test]
fn empty_args() {
    let result = extract_hosts(&[]);
    assert!(result.is_empty());
}

#[test]
fn skip_identity_option() {
    let result = extract_hosts(&s(&["-i", "/key", "host:/path"]));
    assert_eq!(result, vec!["host"]);
}

#[test]
fn option_value_that_looks_like_a_host_is_skipped() {
    let result = extract_hosts(&s(&["-o", "Proxy:x", "-J", "jump:22", "real:/p"]));
    assert_eq!(result, vec!["real"]);
}

#[test]
fn empty_host_parts_are_ignored() {
    let result = extract_hosts(&s(&[":/path", "user@:/path", "a@b@c:/x"]));
    assert_eq!(result, vec!["c"]);
}

#[test]
fn host_without_path_and_trailing_colon() {
    let result = extract_hosts(&s(&["h1:", "x:y:z", "h1:/again"]));
    assert_eq!(result, vec!["h1", "x"]);
}

#[test]
fn value_option_at_end_skips_nothing_more() {
    let result = extract_hosts(&s(&["h:/p", "-F"]));
    assert_eq!(result, vec!["h"]);
}
