//! The SCP wrapper's decisions: its pre-connect verdicts, the name of its session
//! log, and the tmux state it sets up and restores around a transfer.
//!
//! An SCP session is logged to
//! `{prefix}/{YYYY/MM/DD}/{YYYYMMDDTHHMMSS}_{tmux_ids}_scp_{user}@{hosts}.log`,
//! where `hosts` are the remote hosts joined by `_`.

use vstd::prelude::*;

use crate::error::{result_view, ErrorView, FtermError};
use crate::external::{answers_of, strings_view, AgentListResult, Answers, CommandRunner, Request};
use crate::tmux::pane::{
    self, reset_style_args, set_ssh_host_args, set_title_args, tmux_status_did, unset_ssh_host_args,
};
use crate::tmux::window::{
    disable_rename, disable_rename_did, enable_rename, enable_rename_did, lemma_option_names_differ,
    lemma_set_in_window, set_step, tmux_window, window_options,
};
use crate::util::clock::{
    date_dir_layout, file_stamp_layout, format_reading, local_now, reading_in_range, reading_text,
    ClockReading,
};
use crate::validate::orchestrator::{
    format_summary, messages_view, summary_text, MessageView, ValidationResult, ValidationView,
};

verus! {

/// `parts` joined by `sep`.
pub open spec fn joined(parts: Seq<Seq<char>>, sep: Seq<char>) -> Seq<char>
    decreases parts.len(),
{
    if parts.len() == 0 {
        Seq::empty()
    } else if parts.len() == 1 {
        parts[0]
    } else {
        joined(parts.drop_last(), sep) + sep + parts.last()
    }
}

/// The remote hosts joined by `_`, as they appear in an SCP log file name.
pub fn join_hosts(hosts: &[String]) -> (r: String)
    ensures
        r@ == joined(strings_view(hosts@), "_"@),
{
    let ghost hv = strings_view(hosts@);
    let mut r = String::new();
    let mut i: usize = 0;
    while i < hosts.len()
        invariant
            i <= hosts@.len(),
            hv == strings_view(hosts@),
            r@ == joined(hv.take(i as int), "_"@),
        decreases hosts@.len() - i,
    {
        if i > 0 {
            r.append("_");
        }
        r.append(hosts[i].as_str());
        i = i + 1;
        proof {
            let t = hv.take(i as int);
            assert(t.drop_last() =~= hv.take(i - 1));
            if i == 1 {
                assert(r@ =~= joined(t, "_"@));
            }
        }
    }
    assert(hv.take(hv.len() as int) =~= hv);
    r
}

/// `b` appended to path `a` (std's `PathBuf::push` on Unix): an absolute `b`
/// replaces `a`, and a `/` separates them unless `a` is empty or ends with one.
pub open spec fn path_join(a: Seq<char>, b: Seq<char>) -> Seq<char> {
    if b.len() > 0 && b[0] == '/' {
        b
    } else if a.len() == 0 || a.last() == '/' {
        a + b
    } else {
        a + "/"@ + b
    }
}

/// Appends `b` to the path `a`.
fn join_path(a: &str, b: &str) -> (r: String)
    ensures
        r@ == path_join(a@, b@),
{
    let bc = crate::text::chars_of(b);
    if bc.len() > 0 && bc[0] == '/' {
        return b.to_owned();
    }
    let ac = crate::text::chars_of(a);
    let mut r = a.to_owned();
    if ac.len() > 0 && ac[ac.len() - 1] != '/' {
        r.append("/");
    }
    r.append(b);
    r
}

/// The file name of an SCP session log.
pub open spec fn scp_log_file_name(
    timestamp: Seq<char>,
    tmux_ids: Seq<char>,
    user: Seq<char>,
    hosts: Seq<char>,
) -> Seq<char> {
    timestamp + "_"@ + tmux_ids + "_scp_"@ + user + "@"@ + hosts + ".log"@
}

/// Generate the log file path for an SCP session:
/// `{prefix}/{date_dir}/{timestamp}_{tmux_ids}_scp_{user}@{hosts}.log`.
///
/// `date_dir` (`YYYY/MM/DD`) and `timestamp` (`YYYYMMDDTHHMMSS`) are the local time
/// of the session's start.
pub fn generate_scp_log_path(
    prefix: &str,
    date_dir: &str,
    timestamp: &str,
    tmux_ids: &str,
    user: &str,
    hosts: &str,
) -> (r: String)
    ensures
        r@ == path_join(
            path_join(prefix@, date_dir@),
            scp_log_file_name(timestamp@, tmux_ids@, user@, hosts@),
        ),
{
    let mut file_name = timestamp.to_owned();
    file_name.append("_");
    file_name.append(tmux_ids);
    file_name.append("_scp_");
    file_name.append(user);
    file_name.append("@");
    file_name.append(hosts);
    file_name.append(".log");
    let dir = join_path(prefix, date_dir);
    join_path(dir.as_str(), file_name.as_str())
}


/// Generate the log file path for an SCP session starting now: `date_dir` and
/// `timestamp` are the `YYYY/MM/DD` and `YYYYMMDDTHHMMSS` of one reading of the
/// local clock.
pub fn generate_scp_log_path_now(prefix: &str, tmux_ids: &str, user: &str, hosts: &str) -> (r: String)
    ensures
        exists|t: ClockReading|
            #![trigger reading_text(t, date_dir_layout())]
            reading_in_range(t) && r@ == path_join(
                path_join(prefix@, reading_text(t, date_dir_layout())),
                scp_log_file_name(reading_text(t, file_stamp_layout()), tmux_ids@, user@, hosts@),
            ),
{
    let t = local_now();
    let date_dir = format_reading(t, "%Y/%m/%d");
    let timestamp = format_reading(t, "%Y%m%dT%H%M%S");
    let r = generate_scp_log_path(prefix, date_dir.as_str(), timestamp.as_str(), tmux_ids, user, hosts);
    assert(r@ == path_join(
        path_join(prefix@, reading_text(t, date_dir_layout())),
        scp_log_file_name(reading_text(t, file_stamp_layout()), tmux_ids@, user@, hosts@),
    ));
    r
}

/// How the SCP wrapper starts.
#[derive(Debug, Clone, Copy, PartialEq, Eq, Structural)]
pub enum ScpStart {
    /// Run scp directly, without checks, logging or tmux state.
    ExecDirectly,
    /// Stop with this exit code (a pre-connect check decided it).
    Stop(i32),
    /// Go on: resolve the first host, log the session, run scp.
    Proceed,
}

/// Decides how the SCP wrapper starts: with no remote host, or for a dry run, scp
/// runs directly; else the pre-connect checks' verdict (`Some(code)`: stop with
/// it), or it goes on.
pub fn scp_start(hosts: &[String], dry_run: bool, pre_connect: Option<i32>) -> (s: ScpStart)
    ensures
        hosts@.len() == 0 || dry_run ==> s == ScpStart::ExecDirectly,
        hosts@.len() > 0 && !dry_run && pre_connect is Some ==> s == ScpStart::Stop(pre_connect->0),
        hosts@.len() > 0 && !dry_run && pre_connect is None ==> s == ScpStart::Proceed,
{
    if hosts.len() == 0 || dry_run {
        ScpStart::ExecDirectly
    } else {
        match pre_connect {
            Some(code) => ScpStart::Stop(code),
            None => ScpStart::Proceed,
        }
    }
}

/// Names the session: the remote user (`"unknown"` when the host's configuration
/// gave none) and the remote hosts joined by `_`.
pub fn scp_plan(user: Option<String>, hosts: &[String]) -> (r: (String, String))
    ensures
        r.0@ == match user {
            Some(u) => u@,
            None => "unknown"@,
        },
        r.1@ == joined(strings_view(hosts@), "_"@),
{
    let name = match user {
        Some(u) => u,
        None => "unknown".to_owned(),
    };
    (name, join_hosts(hosts))
}

/// The SCP wrapper's exit code: scp's own, whatever restoring the tmux state gave.
pub fn scp_result(scp_exit: i32, teardown: TeardownReport) -> (c: i32)
    ensures
        c == scp_exit,
{
    scp_exit
}

/// The message printed when the SSH agent is not available.
pub open spec fn agent_unavailable_text() -> Seq<char> {
    "Error: SSH agent is not available. Start ssh-agent first."@
}

/// Decides how the pre-connect checks go on after listing the agent's keys: exit
/// code 1, with the message to print on standard error, when the agent is not
/// available; continue otherwise.
pub fn agent_verdict(agent: &AgentListResult) -> (r: Option<(i32, String)>)
    ensures
        agent.available ==> r is None,
        !agent.available ==> (r matches Some((code, message)) && code == 1 && message@
            == agent_unavailable_text()),
{
    if agent.available {
        None
    } else {
        Some((1, "Error: SSH agent is not available. Start ssh-agent first.".to_owned()))
    }
}

/// A message line as the pre-connect report prints it, indented by two spaces.
pub open spec fn indented(m: MessageView) -> Seq<char> {
    "  "@ + m.text
}

/// What the pre-connect checks report for a validation result: with errors, the
/// summary then every message, indented; with warnings only, the summary; else
/// nothing.
pub open spec fn report_lines(v: ValidationView) -> Seq<Seq<char>> {
    if v.error_count > 0 {
        seq![summary_text(v.error_count as nat, v.warn_count as nat)] + v.messages.map_values(
            |m: MessageView| indented(m),
        )
    } else if v.warn_count > 0 {
        seq![summary_text(v.error_count as nat, v.warn_count as nat)]
    } else {
        Seq::empty()
    }
}

/// With errors, the report names every message: the summary line, then each
/// message's text indented by two spaces, in order, whatever the warnings.
pub proof fn law_errors_report_every_message(v: ValidationView)
    requires
        v.error_count > 0,
    ensures
        report_lines(v).len() == v.messages.len() + 1,
        report_lines(v)[0] == summary_text(v.error_count as nat, v.warn_count as nat),
        forall|i: int|
            0 <= i < v.messages.len() ==> #[trigger] report_lines(v)[i + 1] == "  "@ + v.messages[i].text,
{
}

/// Decides how the pre-connect checks end after validation: exit code 1 when there
/// are errors, continue otherwise; and the lines to report on standard error.
pub fn validation_verdict(validation: &ValidationResult) -> (r: (Option<i32>, Vec<String>))
    ensures
        r.0 == (if validation.error_count > 0 {
            Some(1i32)
        } else {
            None
        }),
        strings_view(r.1@) == report_lines(validation@),
{
    let mut lines: Vec<String> = Vec::new();
    if validation.error_count == 0 && validation.warn_count == 0 {
        assert(strings_view(lines@) =~= report_lines(validation@));
        return (None, lines);
    }
    lines.push(format_summary(validation));
    if validation.error_count == 0 {
        assert(strings_view(lines@) =~= report_lines(validation@));
        return (None, lines);
    }
    let ghost mv = messages_view(validation.messages@);
    let ghost head = strings_view(lines@);
    let mut i: usize = 0;
    while i < validation.messages.len()
        invariant
            i <= validation.messages@.len(),
            mv == messages_view(validation.messages@),
            head.len() == 1,
            strings_view(lines@) == head + mv.take(i as int).map_values(|m: MessageView| indented(m)),
        decreases validation.messages@.len() - i,
    {
        let ghost before = strings_view(lines@);
        let mut line = "  ".to_owned();
        line.append(validation.messages[i].text.as_str());
        assert(line@ == indented(mv[i as int]));
        let ghost lv = line@;
        lines.push(line);
        assert(strings_view(lines@) =~= before.push(lv));
        i = i + 1;
        assert(mv.take(i as int).map_values(|m: MessageView| indented(m)) =~= mv.take(i - 1).map_values(
            |m: MessageView| indented(m),
        ).push(indented(mv[i - 1])));
        assert(strings_view(lines@) =~= head + mv.take(i as int).map_values(|m: MessageView| indented(m)));
    }
    assert(mv.take(mv.len() as int) =~= mv);
    assert(strings_view(lines@) =~= report_lines(validation@));
    (Some(1), lines)
}

// ---------------------------------------------------------------------------
// Tmux state around a transfer
// ---------------------------------------------------------------------------

/// `s` with each `_` replaced by a space.
pub open spec fn underscores_to_spaces(s: Seq<char>) -> Seq<char> {
    s.map_values(|c: char| if c == '_' { ' ' } else { c })
}

/// The pane's `@fterm_ssh_host` value during a transfer: `scp:` and the hosts
/// separated by spaces (`hosts_joined` holds them joined by `_`).
pub fn scp_host_value(hosts_joined: &str) -> (r: String)
    ensures
        r@ == "scp:"@ + underscores_to_spaces(hosts_joined@),
{
    let chars = crate::text::chars_of(hosts_joined);
    let mut out: Vec<char> = Vec::new();
    let mut i: usize = 0;
    while i < chars.len()
        invariant
            i <= chars@.len(),
            chars@ == hosts_joined@,
            out@ == underscores_to_spaces(chars@.take(i as int)),
        decreases chars@.len() - i,
    {
        let c = chars[i];
        if c == '_' {
            out.push(' ');
        } else {
            out.push(c);
        }
        i = i + 1;
        assert(underscores_to_spaces(chars@.take(i as int)) =~= underscores_to_spaces(
            chars@.take(i - 1),
        ).push(if c == '_' { ' ' } else { c }));
    }
    assert(chars@.take(chars@.len() as int) =~= chars@);
    let mut r = "scp:".to_owned();
    let rest = crate::text::string_from_chars(out.as_slice());
    r.append(rest.as_str());
    r
}

/// The pane's title during a transfer: `scp:` and the hosts joined by `_`.
pub fn scp_pane_title(hosts_joined: &str) -> (r: String)
    ensures
        r@ == "scp:"@ + hosts_joined@,
{
    let mut r = "scp:".to_owned();
    r.append(hosts_joined);
    r
}

/// What each tmux step of preparing the pane and window for a transfer gave. A
/// failed step does not stop the ones after it.
pub struct SetupReport {
    /// Setting the pane's title.
    pub set_title: Result<(), FtermError>,
    /// Disabling window renaming.
    pub disable_rename: Result<(), FtermError>,
    /// Setting the pane's `@fterm_ssh_host` option.
    pub set_ssh_host: Result<(), FtermError>,
}

/// Preparing the tmux state for a transfer to `hosts_joined`: title the pane
/// `scp:hosts`, disable window renaming, then set `@fterm_ssh_host`, each step
/// whatever the earlier ones gave.
pub open spec fn setup_did(
    answers: Answers,
    hosts_joined: Seq<char>,
    past: Seq<Request>,
    after: Seq<Request>,
    title: Result<(), ErrorView>,
    rename: Result<(), ErrorView>,
    host: Result<(), ErrorView>,
) -> bool {
    exists|h1: Seq<Request>, h2: Seq<Request>|
        #![trigger tmux_status_did(answers, past, h1, set_title_args("scp:"@ + hosts_joined), title), disable_rename_did(answers, h1, h2, rename)]
        tmux_status_did(answers, past, h1, set_title_args("scp:"@ + hosts_joined), title)
            && disable_rename_did(answers, h1, h2, rename) && tmux_status_did(
            answers,
            h2,
            after,
            set_ssh_host_args("scp:"@ + underscores_to_spaces(hosts_joined)),
            host,
        )
}

/// Prepares the tmux state for a transfer to the hosts `hosts_joined` (joined by
/// `_`): titles the pane `scp:hosts`, disables window renaming (a transfer does not
/// use the window's connection count), and sets `@fterm_ssh_host` to `scp:` and the
/// hosts separated by spaces. Every step runs whatever the earlier ones gave.
pub fn setup_scp_tmux<R: CommandRunner>(runner: &mut R, hosts_joined: &str) -> (r: SetupReport)
    ensures
        setup_did(
            answers_of(old(runner)),
            hosts_joined@,
            old(runner).requests(),
            final(runner).requests(),
            result_view(r.set_title),
            result_view(r.disable_rename),
            result_view(r.set_ssh_host),
        ),
        answers_of(final(runner)) == answers_of(old(runner)),
{
    let ghost ans = answers_of(old(runner));
    let ghost h0 = runner.requests();
    let title = scp_pane_title(hosts_joined);
    let set_title = pane::set_title(runner, title.as_str());
    let ghost h1 = runner.requests();
    let disable_rename = disable_rename(runner);
    let ghost h2 = runner.requests();
    let host_value = scp_host_value(hosts_joined);
    let set_ssh_host = pane::set_ssh_host(runner, host_value.as_str());
    assert(tmux_status_did(ans, h0, h1, set_title_args("scp:"@ + hosts_joined@), result_view(set_title)));
    assert(disable_rename_did(ans, h1, h2, result_view(disable_rename)));
    SetupReport { set_title, disable_rename, set_ssh_host }
}

/// What each step of restoring the pane and window after a transfer gave. A failed
/// step does not stop the ones after it.
pub struct TeardownReport {
    /// Resetting the pane's style.
    pub reset_style: Result<(), FtermError>,
    /// Restoring the pane's title.
    pub restore_title: Result<(), FtermError>,
    /// Unsetting the pane's `@fterm_ssh_host` option.
    pub unset_ssh_host: Result<(), FtermError>,
    /// Enabling window renaming again.
    pub enable_rename: Result<(), FtermError>,
}

/// Restoring the tmux state after a transfer: reset the pane's style, restore its
/// title to `title`, unset `@fterm_ssh_host`, then enable window renaming, each
/// step whatever the earlier ones gave.
pub open spec fn teardown_did(
    answers: Answers,
    title: Seq<char>,
    past: Seq<Request>,
    after: Seq<Request>,
    style: Result<(), ErrorView>,
    restored: Result<(), ErrorView>,
    host: Result<(), ErrorView>,
    rename: Result<(), ErrorView>,
) -> bool {
    exists|h1: Seq<Request>, h2: Seq<Request>, h3: Seq<Request>|
        #![trigger tmux_status_did(answers, past, h1, reset_style_args(), style), tmux_status_did(answers, h1, h2, set_title_args(title), restored), tmux_status_did(answers, h2, h3, unset_ssh_host_args(), host)]
        tmux_status_did(answers, past, h1, reset_style_args(), style) && tmux_status_did(
            answers,
            h1,
            h2,
            set_title_args(title),
            restored,
        ) && tmux_status_did(answers, h2, h3, unset_ssh_host_args(), host) && enable_rename_did(
            answers,
            h3,
            after,
            rename,
        )
}

/// Restores the tmux state after a transfer: resets the pane's style, restores its
/// title to `original_pane_title`, unsets `@fterm_ssh_host`, and turns window
/// renaming back on (a transfer does not use the window's connection count). Every
/// step runs whatever the earlier ones gave.
pub fn teardown_scp_session<R: CommandRunner>(runner: &mut R, original_pane_title: &str) -> (r: TeardownReport)
    ensures
        teardown_did(
            answers_of(old(runner)),
            original_pane_title@,
            old(runner).requests(),
            final(runner).requests(),
            result_view(r.reset_style),
            result_view(r.restore_title),
            result_view(r.unset_ssh_host),
            result_view(r.enable_rename),
        ),
        answers_of(final(runner)) == answers_of(old(runner)),
{
    let ghost ans = answers_of(old(runner));
    let ghost h0 = runner.requests();
    let reset_style = pane::reset_style(runner);
    let ghost h1 = runner.requests();
    let restore_title = pane::set_title(runner, original_pane_title);
    let ghost h2 = runner.requests();
    let unset_ssh_host = pane::unset_ssh_host(runner);
    let ghost h3 = runner.requests();
    let enable_rename = enable_rename(runner);
    assert(tmux_status_did(ans, h0, h1, reset_style_args(), result_view(reset_style)));
    assert(tmux_status_did(ans, h1, h2, set_title_args(original_pane_title@), result_view(restore_title)));
    assert(tmux_status_did(ans, h2, h3, unset_ssh_host_args(), result_view(unset_ssh_host)));
    TeardownReport { reset_style, restore_title, unset_ssh_host, enable_rename }
}

/// After a transfer, window renaming is on again, whatever the window's connection
/// count: against a tmux whose window had the options `w0`, restoring the tmux
/// state leaves `allow-rename` and `automatic-rename` on.
pub proof fn law_teardown_turns_renaming_on(
    w0: Map<Seq<char>, Seq<char>>,
    title: Seq<char>,
    past: Seq<Request>,
    after: Seq<Request>,
    style: Result<(), ErrorView>,
    restored: Result<(), ErrorView>,
    host: Result<(), ErrorView>,
    rename: Result<(), ErrorView>,
)
    requires
        teardown_did(tmux_window(w0), title, past, after, style, restored, host, rename),
    ensures
        rename == Ok::<(), ErrorView>(()),
        window_options(w0, after).contains_key("allow-rename"@),
        window_options(w0, after)["allow-rename"@] == "on"@,
        window_options(w0, after).contains_key("automatic-rename"@),
        window_options(w0, after)["automatic-rename"@] == "on"@,
{
    let ans = tmux_window(w0);
    lemma_option_names_differ();
    let (h1, h2, h3) = choose|h1: Seq<Request>, h2: Seq<Request>, h3: Seq<Request>|
        #![trigger tmux_status_did(ans, past, h1, reset_style_args(), style), tmux_status_did(ans, h1, h2, set_title_args(title), restored), tmux_status_did(ans, h2, h3, unset_ssh_host_args(), host)]
        tmux_status_did(ans, past, h1, reset_style_args(), style) && tmux_status_did(
            ans,
            h1,
            h2,
            set_title_args(title),
            restored,
        ) && tmux_status_did(ans, h2, h3, unset_ssh_host_args(), host) && enable_rename_did(
            ans,
            h3,
            after,
            rename,
        );
    let (h4, r4) = choose|h4: Seq<Request>, r4: Result<(), ErrorView>|
        #[trigger] set_step(ans, "allow-rename"@, "on"@)(h3, h4, r4) && match r4 {
            Err(e) => after == h4 && rename == Err::<(), ErrorView>(e),
            Ok(_) => set_step(ans, "automatic-rename"@, "on"@)(h4, after, rename),
        };
    lemma_set_in_window(w0, h3, h4, "allow-rename"@, "on"@, r4);
    lemma_set_in_window(w0, h4, after, "automatic-rename"@, "on"@, rename);
}

} // verus!
