use std::io::Write;

use flate2::write::GzEncoder;
use flate2::Compression;
use fterm::util::log_content::{compressed_log, decoded_head, gz_head, gz_path, head_lines, text_head};

fn gzip_bytes(data: &[u8]) -> Vec<u8> {
    let mut encoder = GzEncoder::new(Vec::new(), Compression::default());
    encoder.write_all(data).unwrap();
    encoder.finish().unwrap()
}

#[test]
fn read_gz_head_reads_n_lines() {
    let compressed = gzip_bytes(b"line1\nline2\nline3\nline4\nline5\n");
    let result = gz_head(&compressed, 3).unwrap();
    assert_eq!(result, "line1\nline2\nline3\n");
}

#[test]
fn read_head_reads_n_lines() {
    let result = text_head(b"line1\nline2\nline3\nline4\nline5\n", 2).unwrap();
    assert_eq!(result, "line1\nline2\n");
}

#[test]
fn read_head_handles_short_file() {
    let result = text_head(b"only one\n", 100).unwrap();
    assert_eq!(result, "only one\n");
}

#[test]
fn head_lines_ends_each_line_and_drops_carriage_returns() {
    assert_eq!(head_lines("a\r\nb\nc", 10), "a\nb\nc\n");
    assert_eq!(head_lines("a\nb\n", 1), "a\n");
    assert_eq!(head_lines("a\n\nb\n", 2), "a\n\n");
    assert_eq!(head_lines("", 3), "");
    assert_eq!(head_lines("x\ny\n", 0), "");
}

#[test]
fn text_head_looks_only_at_the_lines_it_returns() {
    assert_eq!(text_head(b"ok\n\xff\xfe\n", 1).unwrap(), "ok\n");
    assert!(text_head(b"ok\n\xff\xfe\n", 2).is_none());
    assert_eq!(text_head("caf\u{e9}\nx".as_bytes(), 5).unwrap(), "caf\u{e9}\nx\n");
}

#[test]
fn gz_head_of_corrupt_data_is_none() {
    assert!(gz_head(b"not gzip at all", 3).is_none());
    assert_eq!(gz_head(b"not gzip at all", 0).unwrap(), "");
}

#[test]
fn decoded_head_needs_the_lines_before_a_failure() {
    assert_eq!(decoded_head(b"a\nb\npartial", false, 2).unwrap(), "a\nb\n");
    assert!(decoded_head(b"a\nb\npartial", false, 3).is_none());
    assert_eq!(decoded_head(b"a\nb\npartial", true, 3).unwrap(), "a\nb\npartial\n");
}

#[test]
fn gz_path_appends_suffix() {
    assert_eq!(gz_path("/logs/test.log"), "/logs/test.log.gz");
}

#[test]
fn compressed_log_round_trips() {
    let (path, bytes) = compressed_log("/logs/test.log", b"hello world\n").unwrap();
    assert_eq!(path, "/logs/test.log.gz");
    assert_ne!(bytes, b"hello world\n".to_vec());
    assert_eq!(gz_head(&bytes, 10).unwrap(), "hello world\n");
}

#[test]
fn compressed_log_previews_as_original() {
    let data = b"one\r\ntwo\nthree";
    let (_, bytes) = compressed_log("/l/x.log", data).unwrap();
    for n in 0..5 {
        assert_eq!(gz_head(&bytes, n), text_head(data, n));
    }
}
