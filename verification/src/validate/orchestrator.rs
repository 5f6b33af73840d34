//! Validation orchestrator: runs all checks and collects results.

use vstd::prelude::*;

use crate::error::{result_view, ErrorView, FtermError};
use crate::external::{strings_view, CommandRunner};
use crate::text::{
    ascii_lowered, chars_of, decimal, is_ascii_text, lines_of, lines_view, lowercase, push_decimal,
    split_once, split_once_chars, string_from_chars, text_lines, to_lowercase,
};

verus! {

// ---------------------------------------------------------------------------
// Types
// ---------------------------------------------------------------------------

/// Level of a validation message.
#[derive(Debug, Clone, Copy, PartialEq, Eq, Structural)]
pub enum CheckLevel {
    /// Hard failure that should block usage.
    Error,
    /// Soft issue that may indicate misconfiguration.
    Warn,
    /// Informational notice (not an error or warning).
    Info,
}

/// A single validation message.
#[derive(Debug, Clone)]
pub struct CheckMessage {
    /// Severity level.
    pub level: CheckLevel,
    /// Human-readable description.
    pub text: String,
}

/// The value of a [`CheckMessage`].
pub struct MessageView {
    pub level: CheckLevel,
    pub text: Seq<char>,
}

impl View for CheckMessage {
    type V = MessageView;

    open spec fn view(&self) -> MessageView {
        MessageView { level: self.level, text: self.text@ }
    }
}

/// The values of a sequence of messages.
pub open spec fn messages_view(v: Seq<CheckMessage>) -> Seq<MessageView> {
    v.map_values(|m: CheckMessage| m@)
}

/// Result of running all validation checks.
#[derive(Debug)]
pub struct ValidationResult {
    /// All collected messages.
    pub messages: Vec<CheckMessage>,
    /// Count of error-level messages.
    pub error_count: usize,
    /// Count of warning-level messages.
    pub warn_count: usize,
}

/// The value of a [`ValidationResult`].
pub struct ValidationView {
    pub messages: Seq<MessageView>,
    pub error_count: usize,
    pub warn_count: usize,
}

impl View for ValidationResult {
    type V = ValidationView;

    open spec fn view(&self) -> ValidationView {
        ValidationView {
            messages: messages_view(self.messages@),
            error_count: self.error_count,
            warn_count: self.warn_count,
        }
    }
}

// ---------------------------------------------------------------------------
// `ssh -G` output
// ---------------------------------------------------------------------------

/// The entry of a `key value` line: its key lowercased, and the text after its
/// first space; none for a line without a space.
pub open spec fn line_entry(line: Seq<char>) -> Option<(Seq<char>, Seq<char>)> {
    match split_once(line, ' ') {
        Some((k, v)) => Some((lowercase(k), v)),
        None => None,
    }
}

/// The entries of `lines`, in order.
pub open spec fn entries_of(lines: Seq<Seq<char>>) -> Seq<(Seq<char>, Seq<char>)>
    decreases lines.len(),
{
    if lines.len() == 0 {
        Seq::empty()
    } else {
        match line_entry(lines.last()) {
            Some(e) => entries_of(lines.drop_last()).push(e),
            None => entries_of(lines.drop_last()),
        }
    }
}

/// The entries of `ssh -G` output: one per line that holds a space.
pub open spec fn output_entries(output: Seq<char>) -> Seq<(Seq<char>, Seq<char>)> {
    entries_of(text_lines(output))
}

/// The values of the entries whose key is `key_lower`, in order.
pub open spec fn values_with(entries: Seq<(Seq<char>, Seq<char>)>, key_lower: Seq<char>) -> Seq<
    Seq<char>,
>
    decreases entries.len(),
{
    if entries.len() == 0 {
        Seq::empty()
    } else if entries.last().0 == key_lower {
        values_with(entries.drop_last(), key_lower).push(entries.last().1)
    } else {
        values_with(entries.drop_last(), key_lower)
    }
}

/// The value of the first entry whose key is `key_lower`.
pub open spec fn first_value_with(entries: Seq<(Seq<char>, Seq<char>)>, key_lower: Seq<char>) -> Option<
    Seq<char>,
>
    decreases entries.len(),
{
    if entries.len() == 0 {
        None
    } else if entries[0].0 == key_lower {
        Some(entries[0].1)
    } else {
        first_value_with(entries.drop_first(), key_lower)
    }
}

/// All values for `key` (compared lowercased) in `ssh -G` output.
pub open spec fn ssh_g_values(output: Seq<char>, key: Seq<char>) -> Seq<Seq<char>> {
    values_with(output_entries(output), lowercase(key))
}

/// The first value for `key` (compared lowercased) in `ssh -G` output.
pub open spec fn ssh_g_value(output: Seq<char>, key: Seq<char>) -> Option<Seq<char>> {
    first_value_with(output_entries(output), lowercase(key))
}

proof fn lemma_values_with_prepend(
    x: (Seq<char>, Seq<char>),
    t: Seq<(Seq<char>, Seq<char>)>,
    key_lower: Seq<char>,
)
    ensures
        values_with(seq![x] + t, key_lower) == if x.0 == key_lower {
            seq![x.1] + values_with(t, key_lower)
        } else {
            values_with(t, key_lower)
        },
    decreases t.len(),
{
    let s = seq![x] + t;
    if t.len() == 0 {
        assert(s.drop_last() =~= Seq::<(Seq<char>, Seq<char>)>::empty());
        assert(s.last() == x);
        assert(values_with(s.drop_last(), key_lower) == Seq::<Seq<char>>::empty());
        assert(values_with(t, key_lower) == Seq::<Seq<char>>::empty());
        assert(values_with(s, key_lower) =~= if x.0 == key_lower {
            seq![x.1] + values_with(t, key_lower)
        } else {
            values_with(t, key_lower)
        });
    } else {
        assert(s.drop_last() =~= seq![x] + t.drop_last());
        assert(s.last() == t.last());
        lemma_values_with_prepend(x, t.drop_last(), key_lower);
        if x.0 == key_lower {
            assert(values_with(s, key_lower) =~= seq![x.1] + values_with(t, key_lower));
        } else {
            assert(values_with(s, key_lower) =~= values_with(t, key_lower));
        }
    }
}

/// The first value for a key is the first of all its values, and there is none
/// exactly when there are no values.
pub proof fn lemma_first_value_is_first_of_values(
    entries: Seq<(Seq<char>, Seq<char>)>,
    key_lower: Seq<char>,
)
    ensures
        first_value_with(entries, key_lower) == if values_with(entries, key_lower).len() > 0 {
            Some(values_with(entries, key_lower)[0])
        } else {
            None
        },
    decreases entries.len(),
{
    if entries.len() > 0 {
        let t = entries.drop_first();
        assert(entries =~= seq![entries[0]] + t);
        lemma_values_with_prepend(entries[0], t, key_lower);
        lemma_first_value_is_first_of_values(t, key_lower);
    }
}

/// `parse_ssh_g_value` gives the first of the values that `parse_ssh_g_values` gives.
pub proof fn law_value_is_first_of_values(output: Seq<char>, key: Seq<char>)
    ensures
        ssh_g_value(output, key) == if ssh_g_values(output, key).len() > 0 {
            Some(ssh_g_values(output, key)[0])
        } else {
            None
        },
{
    lemma_first_value_is_first_of_values(output_entries(output), lowercase(key));
}

/// The values held by a list of entries.
pub open spec fn entries_view(e: Seq<(String, String)>) -> Seq<(Seq<char>, Seq<char>)> {
    e.map_values(|p: (String, String)| (p.0@, p.1@))
}

/// Splits `ssh -G` output into entries: for each line that holds a space, its key
/// (the text before the first space) lowercased, and its value (the text after).
pub fn ssh_g_entries(output: &str) -> (r: Vec<(String, String)>)
    ensures
        entries_view(r@) == output_entries(output@),
{
    let chars = chars_of(output);
    let lines = lines_of(chars.as_slice());
    let ghost lv = lines_view(lines@);
    let mut entries: Vec<(String, String)> = Vec::new();
    let mut i: usize = 0;
    assert(entries_view(entries@) =~= Seq::<(Seq<char>, Seq<char>)>::empty());
    while i < lines.len()
        invariant
            i <= lines@.len(),
            lv == lines_view(lines@),
            lv == text_lines(output@),
            entries_view(entries@) == entries_of(lv.take(i as int)),
        decreases lines@.len() - i,
    {
        let ghost before = entries_view(entries@);
        assert(lv.take(i + 1).drop_last() =~= lv.take(i as int));
        assert(lv.take(i + 1).last() == lines@[i as int]@);
        match split_once_chars(lines[i].as_slice(), ' ') {
            Some((k, v)) => {
                let k_str = string_from_chars(k.as_slice());
                let key = to_lowercase(k_str.as_str());
                let value = string_from_chars(v.as_slice());
                let ghost e = (key@, value@);
                entries.push((key, value));
                assert(entries_view(entries@) =~= before.push(e));
            },
            None => {},
        }
        i = i + 1;
    }
    assert(lv.take(lv.len() as int) =~= lv);
    entries
}

/// The values of the entries whose key is `key_lower`, in order.
pub fn values_with_key(entries: &[(String, String)], key_lower: &str) -> (r: Vec<String>)
    ensures
        strings_view(r@) == values_with(entries_view(entries@), key_lower@),
{
    let ghost ev = entries_view(entries@);
    let key = key_lower.to_owned();
    let mut values: Vec<String> = Vec::new();
    let mut i: usize = 0;
    while i < entries.len()
        invariant
            i <= entries@.len(),
            ev == entries_view(entries@),
            key@ == key_lower@,
            strings_view(values@) == values_with(ev.take(i as int), key_lower@),
        decreases entries@.len() - i,
    {
        let ghost before = strings_view(values@);
        assert(ev.take(i + 1).drop_last() =~= ev.take(i as int));
        assert(ev.take(i + 1).last() == ev[i as int]);
        if entries[i].0 == key {
            let v = entries[i].1.clone();
            let ghost vv = v@;
            values.push(v);
            assert(strings_view(values@) =~= before.push(vv));
        }
        i = i + 1;
    }
    assert(ev.take(ev.len() as int) =~= ev);
    values
}

/// The value of the first entry whose key is `key_lower`.
pub fn first_value_with_key(entries: &[(String, String)], key_lower: &str) -> (r: Option<String>)
    ensures
        match r {
            Some(v) => first_value_with(entries_view(entries@), key_lower@) == Some(v@),
            None => first_value_with(entries_view(entries@), key_lower@) is None,
        },
{
    let ghost ev = entries_view(entries@);
    let key = key_lower.to_owned();
    let mut i: usize = 0;
    assert(ev.skip(0) =~= ev);
    while i < entries.len()
        invariant
            i <= entries@.len(),
            ev == entries_view(entries@),
            key@ == key_lower@,
            first_value_with(ev, key_lower@) == first_value_with(ev.skip(i as int), key_lower@),
        decreases entries@.len() - i,
    {
        let ghost rest = ev.skip(i as int);
        assert(rest[0] == ev[i as int]);
        assert(rest.drop_first() =~= ev.skip(i + 1));
        if entries[i].0 == key {
            return Some(entries[i].1.clone());
        }
        i = i + 1;
    }
    None
}

/// Parse a single value from `ssh -G` output by key (case-insensitive): the value
/// of the first `key value` line whose key matches.
pub fn parse_ssh_g_value(output: &str, key: &str) -> (r: Option<String>)
    ensures
        match r {
            Some(v) => ssh_g_value(output@, key@) == Some(v@),
            None => ssh_g_value(output@, key@) is None,
        },
        is_ascii_text(key@) ==> first_value_with(output_entries(output@), ascii_lowered(key@)) == match r {
            Some(v) => Some(v@),
            None => None::<Seq<char>>,
        },
{
    let key_lower = to_lowercase(key);
    let entries = ssh_g_entries(output);
    first_value_with_key(entries.as_slice(), key_lower.as_str())
}

/// Parse all values for a given key from `ssh -G` output (case-insensitive), in
/// order.
pub fn parse_ssh_g_values(output: &str, key: &str) -> (r: Vec<String>)
    ensures
        strings_view(r@) == ssh_g_values(output@, key@),
        is_ascii_text(key@) ==> strings_view(r@) == values_with(output_entries(output@), ascii_lowered(key@)),
{
    let key_lower = to_lowercase(key);
    let entries = ssh_g_entries(output);
    values_with_key(entries.as_slice(), key_lower.as_str())
}

// ---------------------------------------------------------------------------
// Counting and summarising
// ---------------------------------------------------------------------------

/// The number of messages of `level` among `msgs`.
pub open spec fn count_level(msgs: Seq<MessageView>, level: CheckLevel) -> nat
    decreases msgs.len(),
{
    if msgs.len() == 0 {
        0
    } else {
        count_level(msgs.drop_last(), level) + if msgs.last().level == level {
            1nat
        } else {
            0nat
        }
    }
}

proof fn lemma_count_level_bound(msgs: Seq<MessageView>, level: CheckLevel)
    ensures
        count_level(msgs, level) <= msgs.len(),
    decreases msgs.len(),
{
    if msgs.len() > 0 {
        lemma_count_level_bound(msgs.drop_last(), level);
    }
}

/// Count errors and warnings in a slice of messages.
pub fn count_levels(messages: &[CheckMessage]) -> (r: (usize, usize))
    ensures
        r.0 == count_level(messages_view(messages@), CheckLevel::Error),
        r.1 == count_level(messages_view(messages@), CheckLevel::Warn),
{
    let ghost mv = messages_view(messages@);
    let mut errors: usize = 0;
    let mut warns: usize = 0;
    let mut i: usize = 0;
    while i < messages.len()
        invariant
            i <= messages@.len(),
            mv == messages_view(messages@),
            errors == count_level(mv.take(i as int), CheckLevel::Error),
            warns == count_level(mv.take(i as int), CheckLevel::Warn),
        decreases messages@.len() - i,
    {
        proof {
            assert(mv.take(i + 1).drop_last() =~= mv.take(i as int));
            assert(mv.take(i + 1).last() == messages@[i as int]@);
            lemma_count_level_bound(mv.take(i as int), CheckLevel::Error);
            lemma_count_level_bound(mv.take(i as int), CheckLevel::Warn);
        }
        match messages[i].level {
            CheckLevel::Error => {
                errors = errors.saturating_add(1);
            },
            CheckLevel::Warn => {
                warns = warns.saturating_add(1);
            },
            CheckLevel::Info => {},
        }
        i = i + 1;
    }
    assert(mv.take(mv.len() as int) =~= mv);
    (errors, warns)
}

/// The summary line shown when no check reported an error or a warning.
pub open spec fn all_passed_text() -> Seq<char> {
    "\x1b[32m\u{2713} All checks passed.\x1b[0m"@
}

/// The red `N error(s)` part of a summary.
pub open spec fn errors_text(n: nat) -> Seq<char> {
    "\x1b[31m"@ + decimal(n) + " error(s)\x1b[0m"@
}

/// The yellow `N warning(s)` part of a summary.
pub open spec fn warnings_text(n: nat) -> Seq<char> {
    "\x1b[33m"@ + decimal(n) + " warning(s)\x1b[0m"@
}

/// The coloured summary line for `error_count` errors and `warn_count` warnings.
pub open spec fn summary_text(error_count: nat, warn_count: nat) -> Seq<char> {
    if error_count == 0 && warn_count == 0 {
        all_passed_text()
    } else if warn_count == 0 {
        errors_text(error_count)
    } else if error_count == 0 {
        warnings_text(warn_count)
    } else {
        errors_text(error_count) + ", "@ + warnings_text(warn_count)
    }
}

/// Format a coloured summary line for the validation result.
pub fn format_summary(result: &ValidationResult) -> (r: String)
    ensures
        r@ == summary_text(result.error_count as nat, result.warn_count as nat),
{
    if result.error_count == 0 && result.warn_count == 0 {
        return "\x1b[32m\u{2713} All checks passed.\x1b[0m".to_owned();
    }
    let mut out = String::new();
    if result.error_count > 0 {
        out.append("\x1b[31m");
        push_decimal(&mut out, result.error_count as u64);
        out.append(" error(s)\x1b[0m");
    }
    if result.warn_count > 0 {
        if result.error_count > 0 {
            out.append(", ");
        }
        out.append("\x1b[33m");
        push_decimal(&mut out, result.warn_count as u64);
        out.append(" warning(s)\x1b[0m");
    }
    assert(out@ =~= summary_text(result.error_count as nat, result.warn_count as nat));
    out
}

/// `t` occurs in `s` starting at index `k`.
pub open spec fn occurs_at(s: Seq<char>, t: Seq<char>, k: int) -> bool {
    0 <= k && k + t.len() <= s.len() && s.subrange(k, k + t.len()) == t
}

/// `t` occurs somewhere in `s`.
pub open spec fn contains_text(s: Seq<char>, t: Seq<char>) -> bool {
    exists|k: int| #[trigger] occurs_at(s, t, k)
}

/// `s` does not contain `t` when no character of `s` equal to `t[j]` follows one
/// equal to `t[j - 1]`.
proof fn lemma_absent_by_pair(s: Seq<char>, t: Seq<char>, j: int)
    requires
        1 <= j < t.len(),
        forall|i: int| 1 <= i < s.len() && #[trigger] s[i] == t[j] ==> s[i - 1] != t[j - 1],
    ensures
        !contains_text(s, t),
{
    if contains_text(s, t) {
        let k = choose|k: int| #[trigger] occurs_at(s, t, k);
        assert(s.subrange(k, k + t.len())[j] == t[j]);
        assert(s.subrange(k, k + t.len())[j - 1] == t[j - 1]);
        assert(s[k + j] == t[j]);
        assert(s[k + j - 1] == t[j - 1]);
    }
}

/// `s` does not contain `t` when no character of `s` equals `t[0]`.
proof fn lemma_absent_by_char(s: Seq<char>, t: Seq<char>)
    requires
        t.len() > 0,
        forall|i: int| 0 <= i < s.len() ==> s[i] != t[0],
    ensures
        !contains_text(s, t),
{
    if contains_text(s, t) {
        let k = choose|k: int| #[trigger] occurs_at(s, t, k);
        assert(s.subrange(k, k + t.len())[0] == t[0]);
    }
}

/// The summary reports errors exactly when there are some, warnings exactly when
/// there are some, and that all checks passed exactly when there are neither.
pub proof fn law_summary_mentions_what_was_found(error_count: nat, warn_count: nat)
    ensures
        contains_text(summary_text(error_count, warn_count), "error(s)"@) <==> error_count > 0,
        contains_text(summary_text(error_count, warn_count), "warning(s)"@) <==> warn_count > 0,
        contains_text(summary_text(error_count, warn_count), "All checks passed"@) <==> (
        error_count == 0 && warn_count == 0),
{
    reveal_strlit("error(s)");
    reveal_strlit("warning(s)");
    reveal_strlit("All checks passed");
    reveal_strlit("\x1b[32m\u{2713} All checks passed.\x1b[0m");
    reveal_strlit("\x1b[31m");
    reveal_strlit("\x1b[33m");
    reveal_strlit(" error(s)\x1b[0m");
    reveal_strlit(" warning(s)\x1b[0m");
    reveal_strlit(", ");
    crate::text::lemma_decimal_digits(error_count);
    crate::text::lemma_decimal_digits(warn_count);
    let s = summary_text(error_count, warn_count);
    let de = decimal(error_count);
    let dw = decimal(warn_count);
    let et = "error(s)"@;
    let wt = "warning(s)"@;
    let at = "All checks passed"@;
    if error_count == 0 && warn_count == 0 {
        assert(s.subrange(7, 7 + at.len() as int) =~= at);
        assert(occurs_at(s, at, 7));
        lemma_absent_by_pair(s, et, 5);
        lemma_absent_by_pair(s, wt, 7);
    } else {
        lemma_absent_by_char(s, at);
        if error_count > 0 {
            let k = 6 + de.len() as int;
            assert(s.subrange(k, k + et.len()) =~= et);
            assert(occurs_at(s, et, k));
        } else {
            lemma_absent_by_pair(s, et, 5);
        }
        if warn_count > 0 {
            if error_count > 0 {
                let k = 26 + de.len() + dw.len() as int;
                assert(s.subrange(k, k + wt.len()) =~= wt);
                assert(occurs_at(s, wt, k));
            } else {
                let k = 6 + dw.len() as int;
                assert(s.subrange(k, k + wt.len()) =~= wt);
                assert(occurs_at(s, wt, k));
            }
        } else {
            lemma_absent_by_pair(s, wt, 7);
        }
    }
}


// ---------------------------------------------------------------------------
// Orchestration
// ---------------------------------------------------------------------------

/// The value of a result that carries messages.
pub open spec fn messages_result(r: Result<Vec<CheckMessage>, FtermError>) -> Result<
    Seq<MessageView>,
    ErrorView,
> {
    match r {
        Ok(m) => Ok(messages_view(m@)),
        Err(e) => Err(e@),
    }
}

/// The messages of a check whose failure is only logged: none on failure.
pub open spec fn found(outcome: Result<Seq<MessageView>, ErrorView>) -> Seq<MessageView> {
    match outcome {
        Ok(m) => m,
        Err(_) => Seq::empty(),
    }
}

/// The individual configuration checks that [`run_all_checks`] orchestrates
/// (ControlMaster directory, syntax, duplicate hosts, host prefix, basic settings,
/// identity, ProxyJump, ControlPath).
///
/// Each method's outcome satisfies the implementation's relation for the request,
/// which by default allows any outcome; an implementation verified here may narrow
/// it, and must then prove its methods against it.
pub trait ConfigChecks {
    /// Messages the ControlMaster directory check may give for `ssh_home`.
    open spec fn cm_dir_allows(&self, ssh_home: Seq<char>, msgs: Seq<MessageView>) -> bool {
        true
    }

    /// Outcomes the configuration syntax check may give.
    open spec fn syntax_allows(
        &self,
        config_args: Seq<Seq<char>>,
        outcome: Result<Seq<MessageView>, ErrorView>,
    ) -> bool {
        true
    }

    /// Outcomes the duplicate host check may give.
    open spec fn duplicate_allows(
        &self,
        config_files: Seq<Seq<char>>,
        outcome: Result<Seq<MessageView>, ErrorView>,
    ) -> bool {
        true
    }

    /// Outcomes the host prefix check may give for `host`.
    open spec fn host_prefix_allows(
        &self,
        host: Seq<char>,
        config_files: Seq<Seq<char>>,
        outcome: Result<Seq<MessageView>, ErrorView>,
    ) -> bool {
        true
    }

    /// Messages the basic check may give for `host` resolved to `ssh_g_output`.
    open spec fn basic_allows(&self, ssh_g_output: Seq<char>, host: Seq<char>, msgs: Seq<MessageView>) -> bool {
        true
    }

    /// Outcomes the identity check may give for `host` resolved to `ssh_g_output`.
    open spec fn identity_allows(
        &self,
        ssh_g_output: Seq<char>,
        host: Seq<char>,
        outcome: Result<Seq<MessageView>, ErrorView>,
    ) -> bool {
        true
    }

    /// Outcomes the ProxyJump check may give for `host`, starting from `visited`.
    open spec fn proxyjump_allows(
        &self,
        ssh_g_output: Seq<char>,
        host: Seq<char>,
        config_args: Seq<Seq<char>>,
        hosts: Seq<Seq<char>>,
        visited: Seq<Seq<char>>,
        outcome: Result<Seq<MessageView>, ErrorView>,
    ) -> bool {
        true
    }

    /// Messages the ControlPath check may give for `host` resolved to `ssh_g_output`.
    open spec fn control_path_allows(
        &self,
        ssh_g_output: Seq<char>,
        host: Seq<char>,
        msgs: Seq<MessageView>,
    ) -> bool {
        true
    }

    /// Check the ControlMaster directory under `ssh_home`.
    fn cm_dir(&self, ssh_home: &str) -> (r: Vec<CheckMessage>)
        ensures
            self.cm_dir_allows(ssh_home@, messages_view(r@)),
    ;

    /// Check the syntax of the whole configuration.
    fn syntax(&self, config_args: &[String]) -> (r: Result<Vec<CheckMessage>, FtermError>)
        ensures
            self.syntax_allows(strings_view(config_args@), messages_result(r)),
    ;

    /// Check the configuration files for hosts defined twice.
    fn duplicate(&self, config_files: &[String]) -> (r: Result<Vec<CheckMessage>, FtermError>)
        ensures
            self.duplicate_allows(strings_view(config_files@), messages_result(r)),
    ;

    /// Check the naming of `host`.
    fn host_prefix(&self, host: &str, config_files: &[String]) -> (r: Result<
        Vec<CheckMessage>,
        FtermError,
    >)
        ensures
            self.host_prefix_allows(host@, strings_view(config_files@), messages_result(r)),
    ;

    /// Check the basic settings of `host`.
    fn basic(&self, ssh_g_output: &str, host: &str) -> (r: Vec<CheckMessage>)
        ensures
            self.basic_allows(ssh_g_output@, host@, messages_view(r@)),
    ;

    /// Check the identity settings of `host`.
    fn identity(&self, ssh_g_output: &str, host: &str) -> (r: Result<Vec<CheckMessage>, FtermError>)
        ensures
            self.identity_allows(ssh_g_output@, host@, messages_result(r)),
    ;

    /// Check the ProxyJump chain of `host`.
    fn proxyjump(
        &self,
        ssh_g_output: &str,
        host: &str,
        config_args: &[String],
        hosts: &[String],
        visited: &mut Vec<String>,
    ) -> (r: Result<Vec<CheckMessage>, FtermError>)
        ensures
            self.proxyjump_allows(
                ssh_g_output@,
                host@,
                strings_view(config_args@),
                strings_view(hosts@),
                strings_view(old(visited)@),
                messages_result(r),
            ),
    ;

    /// Check the ControlPath settings of `host`.
    fn control_path(&self, ssh_g_output: &str, host: &str) -> (r: Vec<CheckMessage>)
        ensures
            self.control_path_allows(ssh_g_output@, host@, messages_view(r@)),
    ;
}

/// The messages of the checks on `host` once it resolved to `out`: basic,
/// identity, ProxyJump (starting from `[host]`), ControlPath.
pub open spec fn resolved_host_messages<C: ConfigChecks>(
    checks: &C,
    out: Seq<char>,
    host: Seq<char>,
    config_args: Seq<Seq<char>>,
    hosts: Seq<Seq<char>>,
    msgs: Seq<MessageView>,
) -> bool {
    exists|basic: Seq<MessageView>|
        #[trigger] checks.basic_allows(out, host, basic) && exists|
            ident: Result<Seq<MessageView>, ErrorView>,
        |
            #[trigger] checks.identity_allows(out, host, ident) && exists|
                pj: Result<Seq<MessageView>, ErrorView>,
            |
                #[trigger] checks.proxyjump_allows(out, host, config_args, hosts, seq![host], pj)
                    && exists|cp: Seq<MessageView>|
                    #[trigger] checks.control_path_allows(out, host, cp) && msgs == basic + found(
                        ident,
                    ) + found(pj) + cp
}

/// The messages of the checks that follow resolving a host: none when it does not
/// resolve, else those of the checks on its resolved configuration.
pub open spec fn after_resolve<C: ConfigChecks>(
    checks: &C,
    res: Result<Seq<char>, ErrorView>,
    host: Seq<char>,
    config_args: Seq<Seq<char>>,
    hosts: Seq<Seq<char>>,
    msgs: Seq<MessageView>,
) -> bool {
    match res {
        Err(_) => msgs == Seq::<MessageView>::empty(),
        Ok(out) => resolved_host_messages(checks, out, host, config_args, hosts, msgs),
    }
}

/// The messages the per-host checks may give for `host`: the host prefix check,
/// then, when `host` resolves, the checks on its resolved configuration.
pub open spec fn host_messages<C: ConfigChecks, R: CommandRunner>(
    checks: &C,
    runner: &R,
    host: Seq<char>,
    config_files: Seq<Seq<char>>,
    config_args: Seq<Seq<char>>,
    hosts: Seq<Seq<char>>,
    msgs: Seq<MessageView>,
) -> bool {
    exists|hp: Result<Seq<MessageView>, ErrorView>|
        #[trigger] checks.host_prefix_allows(host, config_files, hp) && exists|
            res: Result<Seq<char>, ErrorView>,
        |
            #[trigger] runner.resolve_allows(host, config_args, res) && exists|
                rest: Seq<MessageView>,
            |
                #[trigger] after_resolve(checks, res, host, config_args, hosts, rest) && msgs
                    == found(hp) + rest
}

/// All the parts, in order.
pub open spec fn flatten(parts: Seq<Seq<MessageView>>) -> Seq<MessageView>
    decreases parts.len(),
{
    if parts.len() == 0 {
        Seq::empty()
    } else {
        flatten(parts.drop_last()) + parts.last()
    }
}

/// `parts[i]` are messages the per-host checks may give for `hosts[i]`, for each
/// of the first `parts.len()` hosts.
pub open spec fn hosts_messages<C: ConfigChecks, R: CommandRunner>(
    checks: &C,
    runner: &R,
    hosts: Seq<Seq<char>>,
    config_files: Seq<Seq<char>>,
    config_args: Seq<Seq<char>>,
    parts: Seq<Seq<MessageView>>,
) -> bool {
    &&& parts.len() <= hosts.len()
    &&& forall|i: int|
        0 <= i < parts.len() ==> #[trigger] host_messages(
            checks,
            runner,
            hosts[i],
            config_files,
            config_args,
            hosts,
            parts[i],
        )
}

/// Some message among `msgs` is an error.
pub open spec fn has_error(msgs: Seq<MessageView>) -> bool {
    exists|i: int| 0 <= i < msgs.len() && #[trigger] msgs[i].level == CheckLevel::Error
}

/// The validation result holding `msgs`, with their error and warning counts.
pub open spec fn validation_of(msgs: Seq<MessageView>) -> ValidationView {
    ValidationView {
        messages: msgs,
        error_count: count_level(msgs, CheckLevel::Error) as usize,
        warn_count: count_level(msgs, CheckLevel::Warn) as usize,
    }
}

/// The possible results of `run_all_checks`: ControlMaster directory, then syntax
/// (stopping after its messages when one is an error), then duplicate hosts, then
/// the per-host checks for each host in order; failures of the syntax or duplicate
/// checks are the result's error.
pub open spec fn all_checks_give<C: ConfigChecks, R: CommandRunner>(
    checks: &C,
    runner: &R,
    ssh_home: Seq<char>,
    config_files: Seq<Seq<char>>,
    hosts: Seq<Seq<char>>,
    config_args: Seq<Seq<char>>,
    r: Result<ValidationView, ErrorView>,
) -> bool {
    exists|cm: Seq<MessageView>|
        #[trigger] checks.cm_dir_allows(ssh_home, cm) && exists|
            syn: Result<Seq<MessageView>, ErrorView>,
        |
            #[trigger] checks.syntax_allows(config_args, syn) && match syn {
                Err(e) => r == Err::<ValidationView, ErrorView>(e),
                Ok(sm) => if has_error(sm) {
                    r == Ok::<ValidationView, ErrorView>(validation_of(cm + sm))
                } else {
                    exists|dup: Result<Seq<MessageView>, ErrorView>|
                        #[trigger] checks.duplicate_allows(config_files, dup) && match dup {
                            Err(e) => r == Err::<ValidationView, ErrorView>(e),
                            Ok(dm) => exists|parts: Seq<Seq<MessageView>>|
                                #[trigger] hosts_messages(
                                    checks,
                                    runner,
                                    hosts,
                                    config_files,
                                    config_args,
                                    parts,
                                ) && parts.len() == hosts.len() && r == Ok::<
                                    ValidationView,
                                    ErrorView,
                                >(validation_of(cm + sm + dm + flatten(parts))),
                        }
                },
            }
}

/// Every message of every part is among the parts' messages.
proof fn lemma_flatten_contains(parts: Seq<Seq<MessageView>>, i: int, j: int)
    requires
        0 <= i < parts.len(),
        0 <= j < parts[i].len(),
    ensures
        flatten(parts).contains(parts[i][j]),
    decreases parts.len(),
{
    let d = parts.drop_last();
    if i < parts.len() - 1 {
        assert(d[i] == parts[i]);
        lemma_flatten_contains(d, i, j);
        let k = choose|k: int| 0 <= k < flatten(d).len() && flatten(d)[k] == parts[i][j];
        assert(flatten(parts)[k] == parts[i][j]);
    } else {
        assert(flatten(parts)[flatten(d).len() + j] == parts[i][j]);
    }
}

/// Warnings of the syntax check do not stop the validation: when the syntax check
/// gives messages of which none is an error, the duplicate check and the host
/// prefix check of every host run, and the result holds all their messages beside
/// the syntax messages. (Only a syntax error stops early.)
pub proof fn law_checks_go_on_without_syntax_errors<C: ConfigChecks, R: CommandRunner>(
    checks: &C,
    runner: &R,
    ssh_home: Seq<char>,
    config_files: Seq<Seq<char>>,
    hosts: Seq<Seq<char>>,
    config_args: Seq<Seq<char>>,
    r: Result<ValidationView, ErrorView>,
    syntax_msgs: Seq<MessageView>,
    duplicate_msgs: Seq<MessageView>,
    prefix_msgs: spec_fn(Seq<char>) -> Seq<MessageView>,
)
    requires
        all_checks_give(checks, runner, ssh_home, config_files, hosts, config_args, r),
        forall|o: Result<Seq<MessageView>, ErrorView>|
            #[trigger] checks.syntax_allows(config_args, o) ==> o == Ok::<
                Seq<MessageView>,
                ErrorView,
            >(syntax_msgs),
        forall|i: int| 0 <= i < syntax_msgs.len() ==> #[trigger] syntax_msgs[i].level != CheckLevel::Error,
        forall|o: Result<Seq<MessageView>, ErrorView>|
            #[trigger] checks.duplicate_allows(config_files, o) ==> o == Ok::<
                Seq<MessageView>,
                ErrorView,
            >(duplicate_msgs),
        forall|h: Seq<char>, o: Result<Seq<MessageView>, ErrorView>|
            #[trigger] checks.host_prefix_allows(h, config_files, o) ==> o == Ok::<
                Seq<MessageView>,
                ErrorView,
            >(prefix_msgs(h)),
    ensures
        r is Ok,
        forall|j: int|
            0 <= j < syntax_msgs.len() ==> r->Ok_0.messages.contains(#[trigger] syntax_msgs[j]),
        forall|j: int|
            0 <= j < duplicate_msgs.len() ==> r->Ok_0.messages.contains(#[trigger] duplicate_msgs[j]),
        forall|i: int, j: int|
            0 <= i < hosts.len() && 0 <= j < prefix_msgs(hosts[i]).len() ==> r->Ok_0.messages.contains(
                #[trigger] prefix_msgs(hosts[i])[j],
            ),
{
    let cm = choose|cm: Seq<MessageView>|
        #[trigger] checks.cm_dir_allows(ssh_home, cm) && exists|
            syn: Result<Seq<MessageView>, ErrorView>,
        |
            #[trigger] checks.syntax_allows(config_args, syn) && match syn {
                Err(e) => r == Err::<ValidationView, ErrorView>(e),
                Ok(sm) => if has_error(sm) {
                    r == Ok::<ValidationView, ErrorView>(validation_of(cm + sm))
                } else {
                    exists|dup: Result<Seq<MessageView>, ErrorView>|
                        #[trigger] checks.duplicate_allows(config_files, dup) && match dup {
                            Err(e) => r == Err::<ValidationView, ErrorView>(e),
                            Ok(dm) => exists|parts: Seq<Seq<MessageView>>|
                                #[trigger] hosts_messages(
                                    checks,
                                    runner,
                                    hosts,
                                    config_files,
                                    config_args,
                                    parts,
                                ) && parts.len() == hosts.len() && r == Ok::<
                                    ValidationView,
                                    ErrorView,
                                >(validation_of(cm + sm + dm + flatten(parts))),
                        }
                },
            };
    let sm = syntax_msgs;
    assert(!has_error(sm));
    let dm = duplicate_msgs;
    let parts = choose|parts: Seq<Seq<MessageView>>|
        #[trigger] hosts_messages(checks, runner, hosts, config_files, config_args, parts)
            && parts.len() == hosts.len() && r == Ok::<ValidationView, ErrorView>(
            validation_of(cm + sm + dm + flatten(parts)),
        );
    let all = cm + sm + dm + flatten(parts);
    assert(r->Ok_0.messages == all);
    assert forall|j: int| 0 <= j < sm.len() implies all.contains(#[trigger] sm[j]) by {
        assert(all[cm.len() + j] == sm[j]);
    }
    assert forall|j: int| 0 <= j < dm.len() implies all.contains(#[trigger] dm[j]) by {
        assert(all[cm.len() + sm.len() + j] == dm[j]);
    }
    assert forall|i: int, j: int|
        0 <= i < hosts.len() && 0 <= j < prefix_msgs(hosts[i]).len() implies all.contains(
            #[trigger] prefix_msgs(hosts[i])[j],
        ) by {
        assert(host_messages(checks, runner, hosts[i], config_files, config_args, hosts, parts[i]));
        let hp = choose|hp: Result<Seq<MessageView>, ErrorView>|
            #[trigger] checks.host_prefix_allows(hosts[i], config_files, hp) && exists|
                res: Result<Seq<char>, ErrorView>,
            |
                #[trigger] runner.resolve_allows(hosts[i], config_args, res) && exists|
                    rest: Seq<MessageView>,
                |
                    #[trigger] after_resolve(checks, res, hosts[i], config_args, hosts, rest)
                        && parts[i] == found(hp) + rest;
        assert(parts[i][j] == prefix_msgs(hosts[i])[j]);
        lemma_flatten_contains(parts, i, j);
        let k = choose|k: int| 0 <= k < flatten(parts).len() && flatten(parts)[k] == parts[i][j];
        assert(all[cm.len() + sm.len() + dm.len() + k] == parts[i][j]);
    }
}

/// Appends the messages of `src` to `dst`.
fn extend_messages(dst: &mut Vec<CheckMessage>, src: Vec<CheckMessage>)
    ensures
        messages_view(final(dst)@) == messages_view(old(dst)@) + messages_view(src@),
{
    let mut src = src;
    let ghost a = dst@;
    let ghost b = src@;
    dst.append(&mut src);
    assert(messages_view(dst@) =~= messages_view(a) + messages_view(b));
}

/// The messages of a check whose failure is only logged.
fn found_messages(r: Result<Vec<CheckMessage>, FtermError>) -> (m: Vec<CheckMessage>)
    ensures
        messages_view(m@) == found(messages_result(r)),
{
    match r {
        Ok(m) => m,
        Err(_) => {
            let m: Vec<CheckMessage> = Vec::new();
            assert(messages_view(m@) =~= Seq::<MessageView>::empty());
            m
        },
    }
}

/// Whether some message is an error.
fn any_error(msgs: &Vec<CheckMessage>) -> (r: bool)
    ensures
        r == has_error(messages_view(msgs@)),
{
    let mut i: usize = 0;
    while i < msgs.len()
        invariant
            i <= msgs@.len(),
            forall|j: int| 0 <= j < i ==> msgs@[j].level != CheckLevel::Error,
        decreases msgs@.len() - i,
    {
        match msgs[i].level {
            CheckLevel::Error => {
                assert(messages_view(msgs@)[i as int].level == CheckLevel::Error);
                return true;
            },
            _ => {},
        }
        i = i + 1;
    }
    assert forall|j: int| 0 <= j < messages_view(msgs@).len() implies #[trigger] messages_view(
        msgs@,
    )[j].level != CheckLevel::Error by {
        assert(messages_view(msgs@)[j] == msgs@[j]@);
    }
    false
}

/// Runs the per-host checks for `host`.
fn check_host<C: ConfigChecks, R: CommandRunner>(
    checks: &C,
    runner: &R,
    host: &String,
    config_files: &[String],
    config_args: &[String],
    hosts: &[String],
) -> (r: Vec<CheckMessage>)
    ensures
        host_messages(
            checks,
            runner,
            host@,
            strings_view(config_files@),
            strings_view(config_args@),
            strings_view(hosts@),
            messages_view(r@),
        ),
{
    let ghost files = strings_view(config_files@);
    let ghost cargs = strings_view(config_args@);
    let ghost hs = strings_view(hosts@);
    let hp = checks.host_prefix(host.as_str(), config_files);
    let ghost hpv = messages_result(hp);
    let mut msgs = found_messages(hp);
    let resolved = runner.ssh_resolve(host.as_str(), config_args);
    let ghost resv = result_view(resolved);
    match resolved {
        Err(_) => {
            assert(checks.host_prefix_allows(host@, files, hpv));
            assert(runner.resolve_allows(host@, cargs, resv));
            assert(after_resolve(checks, resv, host@, cargs, hs, Seq::<MessageView>::empty()));
            assert(messages_view(msgs@) =~= found(hpv) + Seq::<MessageView>::empty());
        },
        Ok(out) => {
            let basic = checks.basic(out.as_str(), host.as_str());
            let ghost bv = messages_view(basic@);
            let ident = checks.identity(out.as_str(), host.as_str());
            let ghost iv = messages_result(ident);
            let mut visited: Vec<String> = Vec::new();
            visited.push(host.clone());
            assert(strings_view(visited@) =~= seq![host@]);
            let pj = checks.proxyjump(out.as_str(), host.as_str(), config_args, hosts, &mut visited);
            let ghost pv = messages_result(pj);
            let cp = checks.control_path(out.as_str(), host.as_str());
            let ghost cv = messages_view(cp@);
            let ghost before = messages_view(msgs@);
            extend_messages(&mut msgs, basic);
            extend_messages(&mut msgs, found_messages(ident));
            extend_messages(&mut msgs, found_messages(pj));
            extend_messages(&mut msgs, cp);
            let ghost rest = bv + found(iv) + found(pv) + cv;
            assert(messages_view(msgs@) =~= before + rest);
            assert(checks.basic_allows(out@, host@, bv));
            assert(checks.identity_allows(out@, host@, iv));
            assert(checks.proxyjump_allows(out@, host@, cargs, hs, seq![host@], pv));
            assert(checks.control_path_allows(out@, host@, cv));
            assert(resolved_host_messages(checks, out@, host@, cargs, hs, rest));
            assert(checks.host_prefix_allows(host@, files, hpv));
            assert(runner.resolve_allows(host@, cargs, resv));
            assert(messages_view(msgs@) == found(hpv) + rest);
            assert(resv == Ok::<Seq<char>, ErrorView>(out@));
            assert(after_resolve(checks, resv, host@, cargs, hs, rest));
        },
    }
    msgs
}

/// Run all validation checks against the SSH configuration.
///
/// Runs the ControlMaster directory check, then the syntax check (returning its
/// messages at once when one is an error), then the duplicate host check, then the
/// per-host checks for each host: host prefix, and, when `ssh -G` resolves the
/// host, basic, identity, ProxyJump and ControlPath. Failures of the per-host
/// checks are skipped; failures of the syntax and duplicate checks are returned.
pub fn run_all_checks<R: CommandRunner, C: ConfigChecks>(
    runner: &R,
    checks: &C,
    ssh_home: &str,
    config_files: &[String],
    hosts: &[String],
    config_args: &[String],
) -> (r: Result<ValidationResult, FtermError>)
    ensures
        all_checks_give(
            checks,
            runner,
            ssh_home@,
            strings_view(config_files@),
            strings_view(hosts@),
            strings_view(config_args@),
            result_view(r),
        ),
        r matches Ok(v) ==> v.error_count == count_level(messages_view(v.messages@), CheckLevel::Error)
            && v.warn_count == count_level(messages_view(v.messages@), CheckLevel::Warn),
{
    let ghost files = strings_view(config_files@);
    let ghost cargs = strings_view(config_args@);
    let ghost hs = strings_view(hosts@);
    let mut messages: Vec<CheckMessage> = Vec::new();

    // 1. ControlMaster directory
    let cm = checks.cm_dir(ssh_home);
    let ghost cmv = messages_view(cm@);
    assert(messages_view(messages@) =~= Seq::<MessageView>::empty());
    extend_messages(&mut messages, cm);
    assert(messages_view(messages@) =~= cmv);
    assert(checks.cm_dir_allows(ssh_home@, cmv));

    // 2. Syntax check: if it reports an error, return immediately
    let syntax = checks.syntax(config_args);
    let ghost synv = messages_result(syntax);
    assert(checks.syntax_allows(cargs, synv));
    let syntax_msgs = match syntax {
        Ok(m) => m,
        Err(e) => {
            return Err(e);
        },
    };
    let ghost smv = messages_view(syntax_msgs@);
    let has_syntax_errors = any_error(&syntax_msgs);
    extend_messages(&mut messages, syntax_msgs);
    if has_syntax_errors {
        let (error_count, warn_count) = count_levels(messages.as_slice());
        let result = ValidationResult { messages, error_count, warn_count };
        assert(result@ == validation_of(cmv + smv));
        return Ok(result);
    }

    // 3. Duplicate host detection
    let dup = checks.duplicate(config_files);
    let ghost dupv = messages_result(dup);
    assert(checks.duplicate_allows(files, dupv));
    let dup_msgs = match dup {
        Ok(m) => m,
        Err(e) => {
            return Err(e);
        },
    };
    let ghost dmv = messages_view(dup_msgs@);
    extend_messages(&mut messages, dup_msgs);
    let ghost base = cmv + smv + dmv;

    // 4. Per-host checks
    let ghost mut parts: Seq<Seq<MessageView>> = Seq::empty();
    assert(flatten(parts) =~= Seq::<MessageView>::empty());
    assert(messages_view(messages@) =~= base + flatten(parts));
    let mut i: usize = 0;
    while i < hosts.len()
        invariant
            i <= hosts@.len(),
            hs == strings_view(hosts@),
            files == strings_view(config_files@),
            cargs == strings_view(config_args@),
            parts.len() == i,
            hosts_messages(checks, runner, hs, files, cargs, parts),
            messages_view(messages@) == base + flatten(parts),
        decreases hosts@.len() - i,
    {
        let host_msgs = check_host(checks, runner, &hosts[i], config_files, config_args, hosts);
        let ghost hv = messages_view(host_msgs@);
        assert(hs[i as int] == hosts@[i as int]@);
        extend_messages(&mut messages, host_msgs);
        proof {
            let old_parts = parts;
            parts = parts.push(hv);
            assert(parts.drop_last() =~= old_parts);
            assert(messages_view(messages@) =~= base + flatten(parts));
            assert forall|j: int| 0 <= j < parts.len() implies #[trigger] host_messages(
                checks,
                runner,
                hs[j],
                files,
                cargs,
                hs,
                parts[j],
            ) by {
                if j < old_parts.len() {
                    assert(parts[j] == old_parts[j]);
                }
            }
        }
        i = i + 1;
    }
    let (error_count, warn_count) = count_levels(messages.as_slice());
    let result = ValidationResult { messages, error_count, warn_count };
    assert(result@ == validation_of(base + flatten(parts)));
    assert(hosts_messages(checks, runner, hs, files, cargs, parts));
    Ok(result)
}

} // verus!
