//! Character-level text utilities with specifications over `Seq<char>`.
//!
//! The functions here follow the behaviour of the std text operations that the
//! rest of the crate relies on (`str::lines`, `str::split_once`, `str::trim`,
//! `u32::from_str`, decimal formatting), each stated as a short spec function.

use vstd::prelude::*;

verus! {

// ---------------------------------------------------------------------------
// Conversions between `str`/`String` and character vectors
// ---------------------------------------------------------------------------

/// Collects the characters of `s` into a vector.
pub fn chars_of(s: &str) -> (v: Vec<char>)
    ensures
        v@ == s@,
{
    let mut v: Vec<char> = Vec::new();
    for c in it: s.chars()
        invariant
            v@ == it.seq().take(it.index() as int),
    {
        v.push(c);
    }
    v
}

/// Appends one character to a `String` (std's `String::push`).
///
/// Trusted: `String::push` appends the given `char` to the end of the string.
#[verifier::external_body]
pub(crate) fn push_char(s: &mut String, c: char)
    ensures
        final(s)@ == old(s)@.push(c),
{
    s.push(c);
}

/// Builds a `String` holding exactly the characters of `cs`.
pub fn string_from_chars(cs: &[char]) -> (r: String)
    ensures
        r@ == cs@,
{
    let mut r = String::new();
    let mut i: usize = 0;
    while i < cs.len()
        invariant
            i <= cs@.len(),
            r@ == cs@.take(i as int),
        decreases cs@.len() - i,
    {
        push_char(&mut r, cs[i]);
        i = i + 1;
        assert(cs@.take(i as int) == cs@.take(i - 1).push(cs@[i - 1]));
    }
    assert(cs@.take(cs@.len() as int) == cs@);
    r
}


/// Whether the character sequences held by `a` and `b` are equal.
pub fn chars_eq(a: &[char], b: &[char]) -> (r: bool)
    ensures
        r == (a@ == b@),
{
    if a.len() != b.len() {
        return false;
    }
    let mut i: usize = 0;
    while i < a.len()
        invariant
            a@.len() == b@.len(),
            i <= a@.len(),
            forall|j: int| 0 <= j < i ==> a@[j] == b@[j],
        decreases a@.len() - i,
    {
        if a[i] != b[i] {
            return false;
        }
        i = i + 1;
    }
    assert(a@ =~= b@);
    true
}

/// Whether `s` ends with `suffix`.
pub open spec fn ends_with(s: Seq<char>, suffix: Seq<char>) -> bool {
    suffix.len() <= s.len() && s.skip(s.len() - suffix.len()) == suffix
}

/// Checks whether the characters of `s` end with those of `suffix`.
pub fn chars_end_with(s: &[char], suffix: &[char]) -> (r: bool)
    ensures
        r == ends_with(s@, suffix@),
{
    if suffix.len() > s.len() {
        return false;
    }
    let off = s.len() - suffix.len();
    let mut i: usize = 0;
    while i < suffix.len()
        invariant
            off + suffix.len() == s.len(),
            i <= suffix@.len(),
            forall|j: int| 0 <= j < i ==> s@[off + j] == suffix@[j],
        decreases suffix@.len() - i,
    {
        if s[off + i] != suffix[i] {
            assert(s@.skip(off as int)[i as int] != suffix@[i as int]);
            return false;
        }
        i = i + 1;
    }
    assert(s@.skip(off as int) =~= suffix@);
    true
}

// ---------------------------------------------------------------------------
// Searching and splitting
// ---------------------------------------------------------------------------

/// `i` is the first position of `c` in `s`.
pub open spec fn is_first_index(s: Seq<char>, c: char, i: int) -> bool {
    &&& 0 <= i < s.len()
    &&& s[i] == c
    &&& forall|j: int| 0 <= j < i ==> s[j] != c
}

/// `i` is the last position of `c` in `s`.
pub open spec fn is_last_index(s: Seq<char>, c: char, i: int) -> bool {
    &&& 0 <= i < s.len()
    &&& s[i] == c
    &&& forall|j: int| i < j < s.len() ==> s[j] != c
}

/// The first position of `c` in `s`, if `c` occurs.
pub open spec fn first_index_of(s: Seq<char>, c: char) -> Option<int> {
    if exists|i: int| is_first_index(s, c, i) {
        Some(choose|i: int| is_first_index(s, c, i))
    } else {
        None
    }
}

/// The last position of `c` in `s`, if `c` occurs.
pub open spec fn last_index_of(s: Seq<char>, c: char) -> Option<int> {
    if exists|i: int| is_last_index(s, c, i) {
        Some(choose|i: int| is_last_index(s, c, i))
    } else {
        None
    }
}

/// The pieces before and after the first `c` in `s` (std's `str::split_once` with a
/// `char` pattern).
pub open spec fn split_once(s: Seq<char>, c: char) -> Option<(Seq<char>, Seq<char>)> {
    match first_index_of(s, c) {
        Some(i) => Some((s.take(i), s.skip(i + 1))),
        None => None,
    }
}

/// The pieces before and after the last `c` in `s` (std's `str::rsplit_once` with a
/// `char` pattern).
pub open spec fn rsplit_once(s: Seq<char>, c: char) -> Option<(Seq<char>, Seq<char>)> {
    match last_index_of(s, c) {
        Some(i) => Some((s.take(i), s.skip(i + 1))),
        None => None,
    }
}

/// Finds the first position of `c` in `s`.
pub fn find_char(s: &[char], c: char) -> (r: Option<usize>)
    ensures
        match r {
            Some(i) => i < s.len() && first_index_of(s@, c) == Some(i as int),
            None => first_index_of(s@, c) is None,
        },
{
    let mut i: usize = 0;
    while i < s.len()
        invariant
            i <= s@.len(),
            forall|j: int| 0 <= j < i ==> s@[j] != c,
        decreases s@.len() - i,
    {
        if s[i] == c {
            assert(is_first_index(s@, c, i as int));
            let ghost k = choose|k: int| is_first_index(s@, c, k);
            assert(k == i) by {
                if k < i {
                    assert(s@[k] != c);
                } else if k > i {
                    assert(s@[i as int] != c);
                }
            }
            return Some(i);
        }
        i = i + 1;
    }
    assert(!exists|k: int| is_first_index(s@, c, k)) by {
        if exists|k: int| is_first_index(s@, c, k) {
            let k = choose|k: int| is_first_index(s@, c, k);
            assert(s@[k] != c);
        }
    }
    None
}

/// Finds the last position of `c` in `s`.
pub fn rfind_char(s: &[char], c: char) -> (r: Option<usize>)
    ensures
        match r {
            Some(i) => i < s.len() && last_index_of(s@, c) == Some(i as int),
            None => last_index_of(s@, c) is None,
        },
{
    let mut i: usize = s.len();
    while i > 0
        invariant
            i <= s@.len(),
            forall|j: int| i <= j < s@.len() ==> s@[j] != c,
        decreases i,
    {
        if s[i - 1] == c {
            let ghost p = i - 1;
            assert(is_last_index(s@, c, p));
            let ghost k = choose|k: int| is_last_index(s@, c, k);
            assert(k == p) by {
                if k < p {
                    assert(s@[p] != c);
                } else if k > p {
                    assert(s@[k] != c);
                }
            }
            return Some(i - 1);
        }
        i = i - 1;
    }
    assert(!exists|k: int| is_last_index(s@, c, k)) by {
        if exists|k: int| is_last_index(s@, c, k) {
            let k = choose|k: int| is_last_index(s@, c, k);
            assert(s@[k] != c);
        }
    }
    None
}

/// Copies `s[from..to]` into a new vector.
pub fn slice_chars(s: &[char], from: usize, to: usize) -> (r: Vec<char>)
    requires
        from <= to <= s@.len(),
    ensures
        r@ == s@.subrange(from as int, to as int),
{
    let mut r: Vec<char> = Vec::new();
    let mut i: usize = from;
    while i < to
        invariant
            from <= i <= to <= s@.len(),
            r@ == s@.subrange(from as int, i as int),
        decreases to - i,
    {
        r.push(s[i]);
        i = i + 1;
        assert(r@ =~= s@.subrange(from as int, i as int));
    }
    r
}

/// Splits `s` at the first `c` (std's `str::split_once`).
pub fn split_once_chars(s: &[char], c: char) -> (r: Option<(Vec<char>, Vec<char>)>)
    ensures
        match r {
            Some((a, b)) => split_once(s@, c) == Some((a@, b@)),
            None => split_once(s@, c) is None,
        },
{
    match find_char(s, c) {
        Some(i) => {
            let a = slice_chars(s, 0, i);
            let b = slice_chars(s, i + 1, s.len());
            assert(a@ =~= s@.take(i as int));
            assert(b@ =~= s@.skip(i + 1));
            Some((a, b))
        },
        None => None,
    }
}

/// Splits `s` at the last `c` (std's `str::rsplit_once`).
pub fn rsplit_once_chars(s: &[char], c: char) -> (r: Option<(Vec<char>, Vec<char>)>)
    ensures
        match r {
            Some((a, b)) => rsplit_once(s@, c) == Some((a@, b@)),
            None => rsplit_once(s@, c) is None,
        },
{
    match rfind_char(s, c) {
        Some(i) => {
            let a = slice_chars(s, 0, i);
            let b = slice_chars(s, i + 1, s.len());
            assert(a@ =~= s@.take(i as int));
            assert(b@ =~= s@.skip(i + 1));
            Some((a, b))
        },
        None => None,
    }
}


// ---------------------------------------------------------------------------
// Lines
// ---------------------------------------------------------------------------

/// Drops one trailing carriage return.
pub open spec fn strip_cr(line: Seq<char>) -> Seq<char> {
    if line.len() > 0 && line.last() == '\r' {
        line.drop_last()
    } else {
        line
    }
}

/// Scans `s` left to right: the lines already ended by `'\n'` (each without its
/// terminator and without a `'\r'` just before it), and the text after the last `'\n'`.
pub open spec fn line_scan(s: Seq<char>) -> (Seq<Seq<char>>, Seq<char>)
    decreases s.len(),
{
    if s.len() == 0 {
        (Seq::empty(), Seq::empty())
    } else {
        let (done, cur) = line_scan(s.drop_last());
        if s.last() == '\n' {
            (done.push(strip_cr(cur)), Seq::empty())
        } else {
            (done, cur.push(s.last()))
        }
    }
}

/// The lines of `s` as std's `str::lines` yields them: split at `"\n"` or `"\r\n"`,
/// with no empty last line after a final line ending.
pub open spec fn text_lines(s: Seq<char>) -> Seq<Seq<char>> {
    let (done, cur) = line_scan(s);
    if cur.len() == 0 {
        done
    } else {
        done.push(cur)
    }
}

/// Removes a trailing `'\r'` from `line`.
fn strip_cr_in_place(line: &mut Vec<char>)
    ensures
        final(line)@ == strip_cr(old(line)@),
{
    let n = line.len();
    if n > 0 && line[n - 1] == '\r' {
        line.pop();
    }
}

/// The character sequences held by a vector of lines.
pub open spec fn lines_view(v: Seq<Vec<char>>) -> Seq<Seq<char>> {
    v.map_values(|l: Vec<char>| l@)
}

/// Splits `s` into lines (std's `str::lines`).
pub fn lines_of(s: &[char]) -> (r: Vec<Vec<char>>)
    ensures
        lines_view(r@) == text_lines(s@),
{
    let mut done: Vec<Vec<char>> = Vec::new();
    let mut cur: Vec<char> = Vec::new();
    let mut i: usize = 0;
    assert(lines_view(done@) =~= Seq::<Seq<char>>::empty());
    while i < s.len()
        invariant
            i <= s@.len(),
            line_scan(s@.take(i as int)) == (lines_view(done@), cur@),
        decreases s@.len() - i,
    {
        assert(s@.take(i + 1).drop_last() == s@.take(i as int));
        let ghost before = lines_view(done@);
        let c = s[i];
        if c == '\n' {
            let mut line = cur;
            strip_cr_in_place(&mut line);
            let ghost lv = line@;
            done.push(line);
            assert(lines_view(done@) =~= before.push(lv));
            cur = Vec::new();
        } else {
            cur.push(c);
        }
        i = i + 1;
    }
    assert(s@.take(s@.len() as int) == s@);
    if cur.len() > 0 {
        let ghost before = lines_view(done@);
        let ghost cv = cur@;
        done.push(cur);
        assert(lines_view(done@) =~= before.push(cv));
    }
    done
}

// ---------------------------------------------------------------------------
// Whitespace and trimming
// ---------------------------------------------------------------------------

/// Unicode `White_Space` (std's `char::is_whitespace`).
pub open spec fn is_whitespace(c: char) -> bool {
    ||| '\u{9}' <= c <= '\u{d}'
    ||| c == ' '
    ||| c == '\u{85}'
    ||| c == '\u{a0}'
    ||| c == '\u{1680}'
    ||| '\u{2000}' <= c <= '\u{200a}'
    ||| c == '\u{2028}'
    ||| c == '\u{2029}'
    ||| c == '\u{202f}'
    ||| c == '\u{205f}'
    ||| c == '\u{3000}'
}

/// Whether `c` is Unicode whitespace.
pub fn char_is_whitespace(c: char) -> (r: bool)
    ensures
        r == is_whitespace(c),
{
    ('\u{9}' <= c && c <= '\u{d}') || c == ' ' || c == '\u{85}' || c == '\u{a0}' || c
        == '\u{1680}' || ('\u{2000}' <= c && c <= '\u{200a}') || c == '\u{2028}' || c
        == '\u{2029}' || c == '\u{202f}' || c == '\u{205f}' || c == '\u{3000}'
}

/// `s` without leading whitespace.
pub open spec fn trim_start(s: Seq<char>) -> Seq<char>
    decreases s.len(),
{
    if s.len() > 0 && is_whitespace(s[0]) {
        trim_start(s.drop_first())
    } else {
        s
    }
}

/// `s` without trailing whitespace.
pub open spec fn trim_end(s: Seq<char>) -> Seq<char>
    decreases s.len(),
{
    if s.len() > 0 && is_whitespace(s.last()) {
        trim_end(s.drop_last())
    } else {
        s
    }
}

/// `s` without leading and trailing whitespace (std's `str::trim`).
pub open spec fn trim(s: Seq<char>) -> Seq<char> {
    trim_end(trim_start(s))
}

proof fn lemma_trim_start_skip(s: Seq<char>, i: int)
    requires
        0 <= i <= s.len(),
        forall|j: int| 0 <= j < i ==> is_whitespace(s[j]),
        i == s.len() || !is_whitespace(s[i]),
    ensures
        trim_start(s) == s.skip(i),
    decreases i,
{
    if i == 0 {
        assert(s.skip(0) =~= s);
    } else {
        let t = s.drop_first();
        assert forall|j: int| 0 <= j < i - 1 implies is_whitespace(t[j]) by {
            assert(t[j] == s[j + 1]);
        }
        if i - 1 < t.len() {
            assert(t[i - 1] == s[i]);
        }
        lemma_trim_start_skip(t, i - 1);
        assert(t.skip(i - 1) =~= s.skip(i));
    }
}

proof fn lemma_trim_end_take(s: Seq<char>, k: int)
    requires
        0 <= k <= s.len(),
        forall|j: int| k <= j < s.len() ==> is_whitespace(s[j]),
        k == 0 || !is_whitespace(s[k - 1]),
    ensures
        trim_end(s) == s.take(k),
    decreases s.len() - k,
{
    if k == s.len() {
        assert(s.take(k) =~= s);
    } else {
        let t = s.drop_last();
        assert forall|j: int| k <= j < t.len() implies is_whitespace(t[j]) by {
            assert(t[j] == s[j]);
        }
        if k > 0 {
            assert(t[k - 1] == s[k - 1]);
        }
        lemma_trim_end_take(t, k);
        assert(t.take(k) =~= s.take(k));
    }
}

/// Trims whitespace from both ends of `s` (std's `str::trim`).
pub fn trim_chars(s: &[char]) -> (r: Vec<char>)
    ensures
        r@ == trim(s@),
{
    let mut start: usize = 0;
    while start < s.len() && char_is_whitespace(s[start])
        invariant
            start <= s@.len(),
            forall|j: int| 0 <= j < start ==> is_whitespace(s@[j]),
        decreases s@.len() - start,
    {
        start = start + 1;
    }
    proof {
        lemma_trim_start_skip(s@, start as int);
    }
    let mut end: usize = s.len();
    while end > start && char_is_whitespace(s[end - 1])
        invariant
            start <= end <= s@.len(),
            forall|j: int| end <= j < s@.len() ==> is_whitespace(s@[j]),
        decreases end - start,
    {
        end = end - 1;
    }
    proof {
        let t = s@.skip(start as int);
        let k = end - start;
        assert forall|j: int| k <= j < t.len() implies is_whitespace(t[j]) by {
            assert(t[j] == s@[start + j]);
        }
        if k > 0 {
            assert(t[k - 1] == s@[end - 1]);
        }
        lemma_trim_end_take(t, k);
        assert(t.take(k) =~= s@.subrange(start as int, end as int));
    }
    slice_chars(s, start, end)
}

// ---------------------------------------------------------------------------
// Decimal numbers
// ---------------------------------------------------------------------------

/// The ASCII digit for `d < 10`.
pub open spec fn digit_char(d: nat) -> char {
    (d + 48) as char
}

/// The decimal representation of `n`, without sign or leading zeros.
pub open spec fn decimal(n: nat) -> Seq<char>
    decreases n,
{
    if n < 10 {
        seq![digit_char(n)]
    } else {
        decimal(n / 10).push(digit_char(n % 10))
    }
}

/// Appends the decimal representation of `n` to `s`.
pub fn push_decimal(s: &mut String, n: u64)
    ensures
        final(s)@ == old(s)@ + decimal(n as nat),
    decreases n,
{
    if n >= 10 {
        push_decimal(s, n / 10);
    }
    let d = (n % 10) as u8;
    let c = (d + 48) as char;
    push_char(s, c);
}


/// Whether `c` is an ASCII decimal digit.
pub open spec fn is_ascii_digit(c: char) -> bool {
    '0' <= c <= '9'
}

/// The value of a string of decimal digits.
pub open spec fn digits_value(ds: Seq<char>) -> nat
    decreases ds.len(),
{
    if ds.len() == 0 {
        0
    } else {
        digits_value(ds.drop_last()) * 10 + (ds.last() as nat - 48) as nat
    }
}

/// The digits of an unsigned number as `u32::from_str` reads them: an optional `'+'`
/// is dropped.
pub open spec fn unsigned_digits(s: Seq<char>) -> Seq<char> {
    if s.len() > 0 && s[0] == '+' {
        s.drop_first()
    } else {
        s
    }
}

/// What `u32::from_str` yields for `s`: `Some` exactly when, after an optional
/// `'+'`, `s` is a non-empty string of ASCII digits whose value fits in a `u32`.
pub open spec fn parse_u32(s: Seq<char>) -> Option<u32> {
    let ds = unsigned_digits(s);
    if ds.len() > 0 && (forall|i: int| 0 <= i < ds.len() ==> is_ascii_digit(#[trigger] ds[i]))
        && digits_value(ds) <= u32::MAX {
        Some(digits_value(ds) as u32)
    } else {
        None
    }
}

proof fn lemma_digits_value_grows(ds: Seq<char>, i: int)
    requires
        0 <= i <= ds.len(),
        forall|j: int| 0 <= j < ds.len() ==> is_ascii_digit(#[trigger] ds[j]),
    ensures
        digits_value(ds.take(i)) <= digits_value(ds),
    decreases ds.len() - i,
{
    if i == ds.len() {
        assert(ds.take(i) =~= ds);
    } else {
        lemma_digits_value_grows(ds, i + 1);
        assert(ds.take(i + 1).drop_last() =~= ds.take(i));
        assert(is_ascii_digit(ds[i]));
    }
}

/// Parses an unsigned 32-bit decimal number (std's `u32::from_str`).
pub fn parse_u32_chars(s: &[char]) -> (r: Option<u32>)
    ensures
        r == parse_u32(s@),
{
    let start: usize = if s.len() > 0 && s[0] == '+' {
        1
    } else {
        0
    };
    let ghost ds = unsigned_digits(s@);
    assert(ds =~= s@.skip(start as int));
    if start >= s.len() {
        return None;
    }
    let mut acc: u64 = 0;
    let mut i: usize = start;
    while i < s.len()
        invariant
            start <= i <= s@.len(),
            ds == s@.skip(start as int),
            ds == unsigned_digits(s@),
            forall|j: int| 0 <= j < i - start ==> is_ascii_digit(#[trigger] ds[j]),
            acc == digits_value(ds.take(i - start)),
            acc <= u32::MAX,
        decreases s@.len() - i,
    {
        let c = s[i];
        if !('0' <= c && c <= '9') {
            assert(!is_ascii_digit(ds[i - start]));
            return None;
        }
        let d = (c as u32 - 48) as u64;
        let next = acc * 10 + d;
        let ghost k = i - start;
        assert(ds.take(k + 1).drop_last() =~= ds.take(k));
        assert(ds[k] == c);
        i = i + 1;
        if next > 4294967295u64 {
            proof {
                if forall|j: int| 0 <= j < ds.len() ==> is_ascii_digit(#[trigger] ds[j]) {
                    lemma_digits_value_grows(ds, k + 1);
                }
            }
            return None;
        }
        acc = next;
    }
    assert(ds.take(ds.len() as int) =~= ds);
    Some(acc as u32)
}

pub(crate) proof fn lemma_decimal_digits(n: nat)
    ensures
        decimal(n).len() > 0,
        forall|i: int| 0 <= i < decimal(n).len() ==> is_ascii_digit(#[trigger] decimal(n)[i]),
        digits_value(decimal(n)) == n,
    decreases n,
{
    if n < 10 {
        assert(decimal(n).drop_last() =~= Seq::<char>::empty());
        assert((decimal(n).last() as nat - 48) as nat == n);
        assert(digits_value(decimal(n).drop_last()) == 0);
        assert(digits_value(decimal(n)) == n);
    } else {
        lemma_decimal_digits(n / 10);
        let d = decimal(n);
        assert(d.drop_last() =~= decimal(n / 10));
        assert forall|i: int| 0 <= i < d.len() implies is_ascii_digit(#[trigger] d[i]) by {
            if i < d.len() - 1 {
                assert(d[i] == decimal(n / 10)[i]);
            }
        }
        assert(d.last() == digit_char(n % 10));
        assert((d.last() as nat - 48) as nat == n % 10);
        assert(digits_value(d) == digits_value(decimal(n / 10)) * 10 + n % 10);
        assert(n == (n / 10) * 10 + n % 10) by (nonlinear_arith);
        assert(digits_value(d) == n);
    }
}

/// Reading back a written number: `u32::from_str` of the decimal representation of
/// `n`, even after trimming, is `n`.
pub proof fn law_parse_decimal_round_trip(n: u32)
    ensures
        trim(decimal(n as nat)) == decimal(n as nat),
        parse_u32(decimal(n as nat)) == Some(n),
{
    let d = decimal(n as nat);
    lemma_decimal_digits(n as nat);
    assert(is_ascii_digit(d[0]));
    assert(is_ascii_digit(d.last()));
    assert(trim_start(d) == d);
    assert(trim_end(d) == d);
    assert(unsigned_digits(d) == d);
}

// ---------------------------------------------------------------------------
// Case mapping
// ---------------------------------------------------------------------------

/// What std's `str::to_lowercase` returns for `s` (Unicode lowercase mapping).
pub uninterp spec fn lowercase(s: Seq<char>) -> Seq<char>;

/// Whether every character of `s` is ASCII.
pub open spec fn is_ascii_text(s: Seq<char>) -> bool {
    forall|i: int| 0 <= i < s.len() ==> (#[trigger] s[i] as u32) < 128
}

/// `c` with `'A'`..=`'Z'` mapped to `'a'`..=`'z'`, any other character unchanged.
pub open spec fn ascii_lower_char(c: char) -> char {
    if 'A' <= c && c <= 'Z' {
        ((c as u32) + 32) as char
    } else {
        c
    }
}

/// `s` with its ASCII capital letters lowered.
pub open spec fn ascii_lowered(s: Seq<char>) -> Seq<char> {
    s.map_values(|c: char| ascii_lower_char(c))
}

/// Lowercases `s` (std's `str::to_lowercase`).
///
/// Trusted: `str::to_lowercase` is a function of the string alone; its result is
/// named `lowercase(s@)`. On ASCII text Unicode's lowercase mapping takes `'A'`..=`'Z'`
/// to `'a'`..=`'z'` and keeps every other character, so the result is then the
/// string with its capitals lowered. Nothing more is claimed of other text.
#[verifier::external_body]
pub(crate) fn to_lowercase(s: &str) -> (r: String)
    ensures
        r@ == lowercase(s@),
        is_ascii_text(s@) ==> r@ == ascii_lowered(s@),
{
    s.to_lowercase()
}

} // verus!
