use fterm::util::files::{is_gz, is_log_file_name, is_plain_log_file_name, order_newest_first};

#[test]
fn is_gz_detects_gz_extension() {
    assert!(is_gz("file.log.gz"));
    assert!(!is_gz("file.log"));
    assert!(!is_gz("file"));
}

#[test]
fn is_gz_follows_path_rules() {
    assert!(is_gz("/var/log/fterm/2024/01/02/a.log.gz"));
    assert!(is_gz("dir/x.gz/"));
    assert!(is_gz("dir/x.gz/."));
    assert!(!is_gz(".gz"));
    assert!(is_gz("..gz"));
    assert!(!is_gz("a.gz/.."));
    assert!(!is_gz(""));
    assert!(!is_gz("/"));
    assert!(!is_gz("x.gzip"));
    assert!(!is_gz("dir.gz/file"));
}

#[test]
fn log_file_names() {
    assert!(is_log_file_name("app.log"));
    assert!(is_log_file_name("app.log.gz"));
    assert!(!is_log_file_name("readme.txt"));
    assert!(!is_log_file_name("app.gz"));
    assert!(is_plain_log_file_name("app.log"));
    assert!(!is_plain_log_file_name("app.log.gz"));
}

#[test]
fn order_newest_first_sorts_descending_and_keeps_ties() {
    let entries = vec![
        (String::from("old"), 10i128),
        (String::from("new"), 30i128),
        (String::from("tie1"), 20i128),
        (String::from("tie2"), 20i128),
        (String::from("before_epoch"), -5i128),
    ];
    let ordered = order_newest_first(&entries);
    assert_eq!(ordered, vec!["new", "tie1", "tie2", "old", "before_epoch"]);
    assert!(order_newest_first(&[]).is_empty());
}
