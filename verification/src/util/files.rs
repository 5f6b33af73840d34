//! Log file naming and ordering.
//!
//! The file system work (walking directories, reading, compressing) happens at the
//! edge of the program; this module decides which files are logs, which are
//! compressed, and in which order they are listed.

use vstd::prelude::*;

use crate::text::{chars_end_with, chars_eq, chars_of, ends_with, last_index_of, rfind_char};

verus! {

// ---------------------------------------------------------------------------
// Paths
// ---------------------------------------------------------------------------

/// Adds a path piece to the components: empty pieces and `.` are not components.
pub open spec fn keep_component(done: Seq<Seq<char>>, piece: Seq<char>) -> Seq<Seq<char>> {
    if piece.len() == 0 || piece == "."@ {
        done
    } else {
        done.push(piece)
    }
}

/// Scans a path left to right: its components so far and the piece after the last `/`.
pub open spec fn component_scan(p: Seq<char>) -> (Seq<Seq<char>>, Seq<char>)
    decreases p.len(),
{
    if p.len() == 0 {
        (Seq::empty(), Seq::empty())
    } else {
        let (done, cur) = component_scan(p.drop_last());
        if p.last() == '/' {
            (keep_component(done, cur), Seq::empty())
        } else {
            (done, cur.push(p.last()))
        }
    }
}

/// The components of a Unix path other than the root and `.`.
pub open spec fn path_components(p: Seq<char>) -> Seq<Seq<char>> {
    let (done, cur) = component_scan(p);
    keep_component(done, cur)
}

/// The final component of a path, unless the path ends in `..` (std's `Path::file_name`).
pub open spec fn file_name(p: Seq<char>) -> Option<Seq<char>> {
    let c = path_components(p);
    if c.len() == 0 || c.last() == ".."@ {
        None
    } else {
        Some(c.last())
    }
}

/// The extension of a file name: the text after its last `.`, when that `.` is not
/// its first character (std's `Path::extension`).
pub open spec fn name_extension(name: Seq<char>) -> Option<Seq<char>> {
    match last_index_of(name, '.') {
        Some(i) => if i == 0 {
            None
        } else {
            Some(name.skip(i + 1))
        },
        None => None,
    }
}

/// The extension of a path's file name.
pub open spec fn extension(p: Seq<char>) -> Option<Seq<char>> {
    match file_name(p) {
        Some(n) => name_extension(n),
        None => None,
    }
}

/// The final component of a path.
fn path_file_name(p: &[char]) -> (r: Option<Vec<char>>)
    ensures
        match r {
            Some(n) => file_name(p@) == Some(n@),
            None => file_name(p@) is None,
        },
{
    let mut last: Option<Vec<char>> = None;
    let mut cur: Vec<char> = Vec::new();
    let ghost mut done: Seq<Seq<char>> = Seq::empty();
    let mut i: usize = 0;
    let dot: Vec<char> = vec!['.'];
    let dotdot: Vec<char> = vec!['.', '.'];
    assert(dot@ =~= "."@) by {
        reveal_strlit(".");
    }
    assert(dotdot@ =~= ".."@) by {
        reveal_strlit("..");
    }
    while i < p.len()
        invariant
            i <= p@.len(),
            dot@ == "."@,
            component_scan(p@.take(i as int)) == (done, cur@),
            match last {
                Some(l) => done.len() > 0 && done.last() == l@,
                None => done.len() == 0,
            },
        decreases p@.len() - i,
    {
        assert(p@.take(i + 1).drop_last() =~= p@.take(i as int));
        if p[i] == '/' {
            let piece = cur;
            cur = Vec::new();
            if piece.len() != 0 && !chars_eq(piece.as_slice(), dot.as_slice()) {
                proof {
                    done = done.push(piece@);
                }
                last = Some(piece);
            }
        } else {
            cur.push(p[i]);
        }
        i = i + 1;
    }
    assert(p@.take(p@.len() as int) =~= p@);
    if cur.len() != 0 && !chars_eq(cur.as_slice(), dot.as_slice()) {
        proof {
            done = done.push(cur@);
        }
        last = Some(cur);
    }
    match last {
        Some(n) => {
            if chars_eq(n.as_slice(), dotdot.as_slice()) {
                None
            } else {
                Some(n)
            }
        },
        None => None,
    }
}

/// Whether `path` has a `.gz` extension.
pub fn is_gz(path: &str) -> (r: bool)
    ensures
        r == (extension(path@) == Some("gz"@)),
{
    let p = chars_of(path);
    let gz: Vec<char> = vec!['g', 'z'];
    assert(gz@ =~= "gz"@) by {
        reveal_strlit("gz");
    }
    match path_file_name(p.as_slice()) {
        None => false,
        Some(name) => match rfind_char(name.as_slice(), '.') {
            None => false,
            Some(i) => {
                if i == 0 {
                    false
                } else {
                    let ext = crate::text::slice_chars(name.as_slice(), i + 1, name.len());
                    assert(ext@ =~= name@.skip(i + 1));
                    chars_eq(ext.as_slice(), gz.as_slice())
                }
            },
        },
    }
}

// ---------------------------------------------------------------------------
// Log file names
// ---------------------------------------------------------------------------

/// A file with this name is a session log, plain (`.log`) or compressed (`.log.gz`).
pub open spec fn is_log_name(name: Seq<char>) -> bool {
    ends_with(name, ".log"@) || ends_with(name, ".log.gz"@)
}

/// Whether a file named `name` is a session log, plain or compressed.
pub fn is_log_file_name(name: &str) -> (r: bool)
    ensures
        r == is_log_name(name@),
{
    let n = chars_of(name);
    let plain = chars_of(".log");
    let compressed = chars_of(".log.gz");
    chars_end_with(n.as_slice(), plain.as_slice()) || chars_end_with(
        n.as_slice(),
        compressed.as_slice(),
    )
}

/// Whether a file named `name` is a plain (uncompressed) session log.
pub fn is_plain_log_file_name(name: &str) -> (r: bool)
    ensures
        r == ends_with(name@, ".log"@),
{
    let n = chars_of(name);
    let plain = chars_of(".log");
    chars_end_with(n.as_slice(), plain.as_slice())
}


/// A compressed log is never taken for a plain one, so compressing logs skips the
/// files that are already `.log.gz`.
pub proof fn law_compressed_log_is_not_plain(name: Seq<char>)
    requires
        ends_with(name, ".log.gz"@),
    ensures
        !ends_with(name, ".log"@),
{
    reveal_strlit(".log.gz");
    reveal_strlit(".log");
    assert(".log.gz"@.len() == 7);
    assert(".log"@.len() == 4);
    assert(name.skip(name.len() - 7)[6] == 'z');
    assert(name[name.len() - 1] == 'z');
    if ends_with(name, ".log"@) {
        assert(name.skip(name.len() - 4)[3] == 'g');
        assert(name[name.len() - 1] == 'g');
    }
}

// ---------------------------------------------------------------------------
// Newest first
// ---------------------------------------------------------------------------

/// In the newest-first order of files with modification times `t`, file `j` comes
/// before file `k`: it is newer, or as new and listed earlier.
pub open spec fn comes_before(t: Seq<i128>, j: int, k: int) -> bool {
    t[j] > t[k] || (t[j] == t[k] && j < k)
}

/// How many of the first `upto` files come before file `k`.
pub open spec fn count_before(t: Seq<i128>, k: int, upto: int) -> nat
    decreases upto,
{
    if upto <= 0 {
        0
    } else {
        count_before(t, k, upto - 1) + if comes_before(t, upto - 1, k) {
            1nat
        } else {
            0nat
        }
    }
}

/// The position of file `k` in the newest-first order: the number of files that come
/// before it.
pub open spec fn newest_first_position(t: Seq<i128>, k: int) -> nat {
    count_before(t, k, t.len() as int)
}

proof fn lemma_count_before_bound(t: Seq<i128>, k: int, upto: int)
    requires
        0 <= k < t.len(),
        0 <= upto <= t.len(),
    ensures
        count_before(t, k, upto) <= upto,
        k < upto ==> count_before(t, k, upto) < upto,
    decreases upto,
{
    if upto > 0 {
        lemma_count_before_bound(t, k, upto - 1);
    }
}

proof fn lemma_count_before_monotone(t: Seq<i128>, k1: int, k2: int, upto: int)
    requires
        0 <= k1 < t.len(),
        0 <= k2 < t.len(),
        0 <= upto <= t.len(),
        comes_before(t, k1, k2),
    ensures
        count_before(t, k1, upto) <= count_before(t, k2, upto),
        k1 < upto ==> count_before(t, k1, upto) < count_before(t, k2, upto),
    decreases upto,
{
    if upto > 0 {
        lemma_count_before_monotone(t, k1, k2, upto - 1);
    }
}

/// Every file has a position within the list.
pub proof fn law_position_in_range(t: Seq<i128>, k: int)
    requires
        0 <= k < t.len(),
    ensures
        newest_first_position(t, k) < t.len(),
{
    lemma_count_before_bound(t, k, t.len() as int);
}

/// A newer file is listed before an older one.
pub proof fn law_newer_listed_first(t: Seq<i128>, k1: int, k2: int)
    requires
        0 <= k1 < t.len(),
        0 <= k2 < t.len(),
        t[k1] > t[k2],
    ensures
        newest_first_position(t, k1) < newest_first_position(t, k2),
{
    lemma_count_before_monotone(t, k1, k2, t.len() as int);
}

/// Files with equal modification times keep their order (the order is stable).
pub proof fn law_ties_keep_order(t: Seq<i128>, k1: int, k2: int)
    requires
        0 <= k1 < k2 < t.len(),
        t[k1] == t[k2],
    ensures
        newest_first_position(t, k1) < newest_first_position(t, k2),
{
    lemma_count_before_monotone(t, k1, k2, t.len() as int);
}

/// No two files share a position.
pub proof fn law_positions_distinct(t: Seq<i128>, k1: int, k2: int)
    requires
        0 <= k1 < t.len(),
        0 <= k2 < t.len(),
        k1 != k2,
    ensures
        newest_first_position(t, k1) != newest_first_position(t, k2),
{
    if comes_before(t, k1, k2) {
        lemma_count_before_monotone(t, k1, k2, t.len() as int);
    } else {
        lemma_count_before_monotone(t, k2, k1, t.len() as int);
    }
}

/// The modification times of `entries`.
pub open spec fn mtimes(entries: Seq<(String, i128)>) -> Seq<i128> {
    entries.map_values(|e: (String, i128)| e.1)
}

/// Computes the position of entry `k` in the newest-first order.
fn position_of(entries: &[(String, i128)], k: usize) -> (r: usize)
    requires
        k < entries@.len(),
    ensures
        r == newest_first_position(mtimes(entries@), k as int),
{
    let ghost t = mtimes(entries@);
    let tk = entries[k].1;
    let mut count: usize = 0;
    let mut j: usize = 0;
    while j < entries.len()
        invariant
            k < entries@.len(),
            j <= entries@.len(),
            t == mtimes(entries@),
            tk == t[k as int],
            count == count_before(t, k as int, j as int),
        decreases entries@.len() - j,
    {
        proof {
            lemma_count_before_bound(t, k as int, j as int);
        }
        let tj = entries[j].1;
        assert(tj == t[j as int]);
        if tj > tk || (tj == tk && j < k) {
            count = count + 1;
        }
        j = j + 1;
    }
    count
}

/// Orders files newest first: by modification time, descending, keeping the given
/// order among files with equal times. `entries` pairs each path with its
/// modification time in nanoseconds since the Unix epoch.
pub fn order_newest_first(entries: &[(String, i128)]) -> (r: Vec<String>)
    ensures
        r@.len() == entries@.len(),
        forall|k: int|
            0 <= k < entries@.len() ==> r@[#[trigger] newest_first_position(mtimes(entries@), k) as int]@
                == entries@[k].0@,
{
    let ghost t = mtimes(entries@);
    let n = entries.len();
    let mut r: Vec<String> = Vec::new();
    let mut i: usize = 0;
    while i < n
        invariant
            n == entries@.len(),
            i <= n,
            r@.len() == i,
        decreases n - i,
    {
        r.push(String::new());
        i = i + 1;
    }
    let mut k: usize = 0;
    while k < n
        invariant
            n == entries@.len(),
            k <= n,
            t == mtimes(entries@),
            r@.len() == n,
            forall|m: int|
                0 <= m < k ==> r@[#[trigger] newest_first_position(t, m) as int]@ == entries@[m].0@,
        decreases n - k,
    {
        let pos = position_of(entries, k);
        proof {
            law_position_in_range(t, k as int);
            assert forall|m: int| 0 <= m < k implies newest_first_position(t, m)
                != newest_first_position(t, k as int) by {
                law_positions_distinct(t, m, k as int);
            }
        }
        let name = entries[k].0.clone();
        let ghost before = r@;
        r.set(pos, name);
        assert forall|m: int| 0 <= m <= k implies r@[#[trigger] newest_first_position(t, m) as int]@
            == entries@[m].0@ by {
            law_position_in_range(t, m);
            if m < k {
                law_positions_distinct(t, m, k as int);
                assert(r@[newest_first_position(t, m) as int] == before[newest_first_position(t, m) as int]);
            }
        }
        k = k + 1;
    }
    r
}

} // verus!
