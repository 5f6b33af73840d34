//! The contents of log files: the head of a log (as a preview shows it), and gzip
//! compression and decompression of a log's bytes.
//!
//! Reading and writing the files happens at the edge of the program; here the bytes
//! are turned into the text that is shown, and into the bytes that are written.

use std::io::Read;
use std::io::Write;

use vstd::prelude::*;
use vstd::utf8::{decode_utf8, valid_utf8};

use crate::text::{chars_of, lines_of, lines_view, push_char, string_from_chars, text_lines};

verus! {

// ---------------------------------------------------------------------------
// The first lines of a text
// ---------------------------------------------------------------------------

/// `lines`, each followed by `'\n'`.
pub open spec fn terminated(lines: Seq<Seq<char>>) -> Seq<char>
    decreases lines.len(),
{
    if lines.len() == 0 {
        Seq::empty()
    } else {
        terminated(lines.drop_last()) + lines.last() + seq!['\n']
    }
}

/// The first `n` lines of `text` (all of them when it has fewer), split as std's
/// `BufRead::lines` splits them, each followed by `'\n'`.
pub open spec fn first_lines(text: Seq<char>, n: nat) -> Seq<char> {
    let ls = text_lines(text);
    terminated(
        if n < ls.len() {
            ls.take(n as int)
        } else {
            ls
        },
    )
}

/// The first `n` lines of `text`, each ended by `'\n'`.
pub fn head_lines(text: &str, n: usize) -> (r: String)
    ensures
        r@ == first_lines(text@, n as nat),
{
    let chars = chars_of(text);
    let lines = lines_of(chars.as_slice());
    let ghost lv = lines_view(lines@);
    let k: usize = if n < lines.len() {
        n
    } else {
        lines.len()
    };
    let mut r = String::new();
    let mut i: usize = 0;
    while i < k
        invariant
            i <= k,
            k <= lines@.len(),
            lv == lines_view(lines@),
            lv == text_lines(text@),
            r@ == terminated(lv.take(i as int)),
        decreases k - i,
    {
        let line = string_from_chars(lines[i].as_slice());
        r.append(line.as_str());
        push_char(&mut r, '\n');
        i = i + 1;
        assert(lv.take(i as int).drop_last() =~= lv.take(i - 1));
        assert(lv[i - 1] == lines@[i - 1]@);
    }
    if n < lines.len() {
        assert(lv.take(k as int) == lv.take(n as int));
    } else {
        assert(lv.take(k as int) =~= lv);
    }
    r
}

// ---------------------------------------------------------------------------
// The first lines of a log's bytes
// ---------------------------------------------------------------------------

/// The bytes of the first `n` lines of `data`: through its `n`-th `b'\n'`, or all of
/// it when it has fewer.
pub open spec fn head_bytes(data: Seq<u8>, n: nat) -> Seq<u8>
    decreases data.len(),
{
    if n == 0 || data.len() == 0 {
        Seq::empty()
    } else if data[0] == 10u8 {
        seq![10u8] + head_bytes(data.skip(1), (n - 1) as nat)
    } else {
        seq![data[0]] + head_bytes(data.skip(1), n)
    }
}

/// Whether `data` holds at least `n` line endings (`b'\n'`).
pub open spec fn lines_complete(data: Seq<u8>, n: nat) -> bool
    decreases data.len(),
{
    if n == 0 {
        true
    } else if data.len() == 0 {
        false
    } else if data[0] == 10u8 {
        lines_complete(data.skip(1), (n - 1) as nat)
    } else {
        lines_complete(data.skip(1), n)
    }
}

/// The text of the first `n` lines of a log's bytes: `None` when those bytes are
/// not UTF-8.
pub open spec fn head_text(data: Seq<u8>, n: nat) -> Option<Seq<char>> {
    let b = head_bytes(data, n);
    if valid_utf8(b) {
        Some(first_lines(decode_utf8(b), n))
    } else {
        None
    }
}

/// The value of an optional string.
pub open spec fn text_option(r: Option<String>) -> Option<Seq<char>> {
    match r {
        Some(s) => Some(s@),
        None => None,
    }
}

/// The value of optional bytes.
pub open spec fn bytes_option(r: Option<Vec<u8>>) -> Option<Seq<u8>> {
    match r {
        Some(b) => Some(b@),
        None => None,
    }
}

/// The bytes of the first `n` lines of `data`, and whether `data` holds `n` line
/// endings.
fn split_head(data: &[u8], n: usize) -> (r: (Vec<u8>, bool))
    ensures
        r.0@ == head_bytes(data@, n as nat),
        r.1 == lines_complete(data@, n as nat),
{
    let mut head: Vec<u8> = Vec::new();
    let mut seen: usize = 0;
    let mut i: usize = 0;
    assert(data@.skip(0) =~= data@);
    assert(data@.take(0) + head_bytes(data@, n as nat) =~= head_bytes(data@, n as nat));
    while i < data.len() && seen < n
        invariant
            i <= data@.len(),
            seen <= n,
            head@ == data@.take(i as int),
            head_bytes(data@, n as nat) == data@.take(i as int) + head_bytes(
                data@.skip(i as int),
                (n - seen) as nat,
            ),
            lines_complete(data@, n as nat) == lines_complete(data@.skip(i as int), (n - seen) as nat),
        decreases data@.len() - i,
    {
        let b = data[i];
        proof {
            let rest = data@.skip(i as int);
            assert(rest.skip(1) =~= data@.skip(i + 1));
            assert(rest[0] == b);
            assert(data@.take(i + 1) =~= data@.take(i as int) + seq![b]);
        }
        head.push(b);
        if b == 10u8 {
            seen = seen + 1;
        }
        i = i + 1;
    }
    proof {
        if i == data@.len() {
            assert(data@.skip(i as int).len() == 0);
        }
        assert(head_bytes(data@.skip(i as int), (n - seen) as nat) =~= Seq::<u8>::empty());
    }
    (head, seen == n)
}

/// Turns bytes into text (std's `String::from_utf8`).
///
/// Trusted: `String::from_utf8` succeeds exactly on valid UTF-8, and the string then
/// holds the characters the bytes encode.
#[verifier::external_body]
fn utf8_text(bytes: Vec<u8>) -> (r: Option<String>)
    ensures
        r is Some <==> valid_utf8(bytes@),
        r is Some ==> r->0@ == decode_utf8(bytes@),
{
    String::from_utf8(bytes).ok()
}

/// The first `n` lines of a log's bytes as text, each ended by `'\n'` (a `"\r\n"`
/// ending counts as one); `None` when those lines are not UTF-8. The bytes after the
/// `n`-th line are not looked at.
pub fn text_head(data: &[u8], n: usize) -> (r: Option<String>)
    ensures
        text_option(r) == head_text(data@, n as nat),
{
    let (head, _) = split_head(data, n);
    match utf8_text(head) {
        None => None,
        Some(text) => Some(head_lines(text.as_str(), n)),
    }
}

// ---------------------------------------------------------------------------
// Compressed logs
// ---------------------------------------------------------------------------

/// The bytes that flate2's `read::GzDecoder` decodes from the gzip stream `data`
/// before the stream ends or fails, and whether it ended without failing.
pub uninterp spec fn gunzip_of(data: Seq<u8>) -> (Seq<u8>, bool);

/// The gzip stream that flate2's `write::GzEncoder` (default compression level)
/// writes for `data`, or `None` when it reports a failure.
pub uninterp spec fn gzip_of(data: Seq<u8>) -> Option<Seq<u8>>;

/// Decompresses the gzip stream `data` (flate2's `read::GzDecoder`, read to its end).
///
/// Trusted: the result is [`gunzip_of`] of the input: the bytes read before the
/// stream ended or failed (std's `read_to_end` keeps those), and whether it ended
/// without failing.
#[verifier::external_body]
fn gunzip(data: &[u8]) -> (r: (Vec<u8>, bool))
    ensures
        (r.0@, r.1) == gunzip_of(data@),
{
    let mut out: Vec<u8> = Vec::new();
    let ended = flate2::read::GzDecoder::new(data).read_to_end(&mut out).is_ok();
    (out, ended)
}

/// Compresses `data` into a gzip stream (flate2's `write::GzEncoder` over a vector,
/// default compression level, then `finish`).
///
/// Trusted: the result is [`gzip_of`] of the input, and a gzip decoder reads the
/// stream back to the input, ending cleanly (flate2's encoder and decoder are
/// documented to round-trip).
#[verifier::external_body]
fn gzip(data: &[u8]) -> (r: Option<Vec<u8>>)
    ensures
        bytes_option(r) == gzip_of(data@),
        r matches Some(z) ==> gunzip_of(z@) == (data@, true),
{
    let mut encoder = flate2::write::GzEncoder::new(Vec::new(), flate2::Compression::default());
    match encoder.write_all(data) {
        Ok(()) => encoder.finish().ok(),
        Err(_) => None,
    }
}

/// The first `n` lines of a decompressed log: those of `decoded` when it holds
/// them all or the stream ended cleanly, `None` when the stream failed before
/// the `n`-th line ended or those lines are not UTF-8.
pub open spec fn decoded_head_text(decoded: Seq<u8>, ended: bool, n: nat) -> Option<Seq<char>> {
    if ended || lines_complete(decoded, n) {
        head_text(decoded, n)
    } else {
        None
    }
}

/// The first `n` lines of what a gzip decoder gave (`decoded`, and whether the stream
/// `ended` without failing), as text.
pub fn decoded_head(decoded: &[u8], ended: bool, n: usize) -> (r: Option<String>)
    ensures
        text_option(r) == decoded_head_text(decoded@, ended, n as nat),
{
    let (head, complete) = split_head(decoded, n);
    if !ended && !complete {
        return None;
    }
    match utf8_text(head) {
        None => None,
        Some(text) => Some(head_lines(text.as_str(), n)),
    }
}

/// The first `n` lines of the gzip-compressed log `data`, as text (a compressed
/// log's preview).
pub fn gz_head(data: &[u8], n: usize) -> (r: Option<String>)
    ensures
        text_option(r) == decoded_head_text(gunzip_of(data@).0, gunzip_of(data@).1, n as nat),
{
    let (decoded, ended) = gunzip(data);
    decoded_head(decoded.as_slice(), ended, n)
}

/// A compressed log previews as the log itself: when a stream decodes to `data`
/// and ends cleanly, its first lines are those of `data`.
pub proof fn law_compressed_log_previews_as_original(z: Seq<u8>, data: Seq<u8>, n: nat)
    requires
        gunzip_of(z) == (data, true),
    ensures
        decoded_head_text(gunzip_of(z).0, gunzip_of(z).1, n) == head_text(data, n),
{
}

/// The path of the compressed copy of the file at `path`.
pub fn gz_path(path: &str) -> (r: String)
    ensures
        r@ == path@ + ".gz"@,
{
    let mut r = path.to_owned();
    r.append(".gz");
    r
}

/// What compressing the log at `path` with contents `data` writes: the path of the
/// compressed copy and its bytes; `None` when compression fails.
pub fn compressed_log(path: &str, data: &[u8]) -> (r: Option<(String, Vec<u8>)>)
    ensures
        r is Some <==> gzip_of(data@) is Some,
        r matches Some((gz, bytes)) ==> gz@ == path@ + ".gz"@ && bytes@ == gzip_of(data@)->0
            && gunzip_of(bytes@) == (data@, true),
{
    match gzip(data) {
        None => None,
        Some(bytes) => Some((gz_path(path), bytes)),
    }
}

} // verus!
