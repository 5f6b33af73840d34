//! Tmux window management.
//!
//! Manages the `@fterm_ssh_count` window option and window rename settings
//! to keep track of active SSH connections per window. Every tmux command goes
//! through a [`CommandRunner`]; each function's contract states the exact
//! sequence of commands it hands over, each depending on the answers before it,
//! and what it returns for every answer the runner may give.

use vstd::prelude::*;

use crate::error::{result_view, ErrorView, FtermError};
use crate::external::{
    answers_of, command_failed, failed_command, ran, request, strs_view, Answers, CommandRunner,
    OutputView, Request,
};
use crate::text::{chars_of, decimal, parse_u32, parse_u32_chars, push_decimal, string_from_chars, trim, trim_chars};

verus! {

// ---------------------------------------------------------------------------
// Commands and their outcomes
// ---------------------------------------------------------------------------

/// The window option that counts SSH connections.
pub open spec fn count_option() -> Seq<char> {
    "@fterm_ssh_count"@
}

/// A `tmux` request with the given arguments (timeout 5 s).
pub open spec fn tmux_request(args: Seq<Seq<char>>) -> Request {
    request("tmux"@, args, 5)
}

/// Arguments of `tmux` that read the connection count.
pub open spec fn show_count_args() -> Seq<Seq<char>> {
    seq!["show-window-option"@, "-v"@, "@fterm_ssh_count"@]
}

/// Arguments of `tmux` that set a window option.
pub open spec fn set_option_args(option: Seq<char>, value: Seq<char>) -> Seq<Seq<char>> {
    seq!["set-window-option"@, option, value]
}

/// Arguments of `tmux` that unset a window option.
pub open spec fn unset_option_args(option: Seq<char>) -> Seq<Seq<char>> {
    seq!["set-window-option"@, "-u"@, option]
}

/// What a command that only reports success by its exit code gives: the runner's
/// error, a failure naming `command` for a non-zero exit code, or success.
pub open spec fn status_outcome(command: Seq<char>, outcome: Result<OutputView, ErrorView>) -> Result<
    (),
    ErrorView,
> {
    match outcome {
        Err(e) => Err(e),
        Ok(out) => if out.exit_code != 0 {
            Err(failed_command(command, out))
        } else {
            Ok(())
        },
    }
}

/// What reading the connection count gives for each answer to the `tmux` query:
/// 0 when the query fails or prints nothing, the printed count when it is a `u32`.
pub open spec fn count_outcome(outcome: Result<OutputView, ErrorView>) -> Result<u32, ErrorView> {
    match outcome {
        Err(e) => Err(e),
        Ok(out) => if out.exit_code != 0 || trim(out.stdout).len() == 0 {
            Ok(0)
        } else {
            match parse_u32(trim(out.stdout)) {
                Some(n) => Ok(n),
                None => Err(ErrorView::InvalidCount(trim(out.stdout))),
            }
        },
    }
}

// ---------------------------------------------------------------------------
// What the operations do: from the requests `past` made before to the requests
// `after` made once they return, under the runner's `answers`
// ---------------------------------------------------------------------------

/// An operation that ends in success or an error: it may take the requests from
/// `past` to `after` and give `r`.
pub type Step = spec_fn(Seq<Request>, Seq<Request>, Result<(), ErrorView>) -> bool;

/// Reading the count: one query, whose answer gives `r`.
pub open spec fn read_count_did(
    answers: Answers,
    past: Seq<Request>,
    after: Seq<Request>,
    r: Result<u32, ErrorView>,
) -> bool {
    exists|o: Result<OutputView, ErrorView>|
        #[trigger] ran(answers, past, tmux_request(show_count_args()), after, o) && r == count_outcome(o)
}

/// Setting `option` to `value`: one `tmux set-window-option option value`.
pub open spec fn set_option_did(
    answers: Answers,
    past: Seq<Request>,
    after: Seq<Request>,
    option: Seq<char>,
    value: Seq<char>,
    r: Result<(), ErrorView>,
) -> bool {
    exists|o: Result<OutputView, ErrorView>|
        #[trigger] ran(answers, past, tmux_request(set_option_args(option, value)), after, o) && r
            == status_outcome("tmux set-window-option "@ + option + " "@ + value, o)
}

/// Unsetting `option`: one `tmux set-window-option -u option`.
pub open spec fn unset_option_did(
    answers: Answers,
    past: Seq<Request>,
    after: Seq<Request>,
    option: Seq<char>,
    r: Result<(), ErrorView>,
) -> bool {
    exists|o: Result<OutputView, ErrorView>|
        #[trigger] ran(answers, past, tmux_request(unset_option_args(option)), after, o) && r
            == status_outcome("tmux set-window-option -u "@ + option, o)
}

/// Setting `option` to `value`, as a step.
pub open spec fn set_step(answers: Answers, option: Seq<char>, value: Seq<char>) -> Step {
    |past: Seq<Request>, after: Seq<Request>, r: Result<(), ErrorView>|
        set_option_did(answers, past, after, option, value, r)
}

/// Unsetting `option`, as a step.
pub open spec fn unset_step(answers: Answers, option: Seq<char>) -> Step {
    |past: Seq<Request>, after: Seq<Request>, r: Result<(), ErrorView>|
        unset_option_did(answers, past, after, option, r)
}

/// `first`, then, when it succeeds, `rest`: the first failure, or the outcome of
/// `rest`; nothing is requested after a failure.
pub open spec fn then_did(
    first: Step,
    rest: Step,
    past: Seq<Request>,
    after: Seq<Request>,
    r: Result<(), ErrorView>,
) -> bool {
    exists|mid: Seq<Request>, r1: Result<(), ErrorView>|
        #[trigger] first(past, mid, r1) && match r1 {
            Err(e) => after == mid && r == Err::<(), ErrorView>(e),
            Ok(_) => rest(mid, after, r),
        }
}

/// Disabling window renaming: `automatic-rename off`, then `allow-rename off`.
pub open spec fn disable_rename_did(
    answers: Answers,
    past: Seq<Request>,
    after: Seq<Request>,
    r: Result<(), ErrorView>,
) -> bool {
    then_did(
        set_step(answers, "automatic-rename"@, "off"@),
        set_step(answers, "allow-rename"@, "off"@),
        past,
        after,
        r,
    )
}

/// Enabling window renaming: `allow-rename on`, then `automatic-rename on`.
pub open spec fn enable_rename_did(
    answers: Answers,
    past: Seq<Request>,
    after: Seq<Request>,
    r: Result<(), ErrorView>,
) -> bool {
    then_did(
        set_step(answers, "allow-rename"@, "on"@),
        set_step(answers, "automatic-rename"@, "on"@),
        past,
        after,
        r,
    )
}

/// Disabling window renaming, as a step.
pub open spec fn disable_rename_step(answers: Answers) -> Step {
    |past: Seq<Request>, after: Seq<Request>, r: Result<(), ErrorView>|
        disable_rename_did(answers, past, after, r)
}

/// Enabling window renaming, as a step.
pub open spec fn enable_rename_step(answers: Answers) -> Step {
    |past: Seq<Request>, after: Seq<Request>, r: Result<(), ErrorView>|
        enable_rename_did(answers, past, after, r)
}

/// Restoring window renaming after the last connection: unset the count, then
/// enable renaming.
pub open spec fn restore_rename_did(
    answers: Answers,
    past: Seq<Request>,
    after: Seq<Request>,
    r: Result<(), ErrorView>,
) -> bool {
    then_did(unset_step(answers, count_option()), enable_rename_step(answers), past, after, r)
}

/// The count after one more connection (saturating).
pub open spec fn count_after_connect(n: u32) -> u32 {
    n.saturating_add(1)
}

/// The count after one connection closed (saturating at 0).
pub open spec fn count_after_disconnect(n: u32) -> u32 {
    n.saturating_sub(1)
}

/// `increment_ssh_count`: read the count `n`; on success write `n + 1`, then
/// disable renaming.
pub open spec fn increment_did(
    answers: Answers,
    past: Seq<Request>,
    after: Seq<Request>,
    r: Result<(), ErrorView>,
) -> bool {
    exists|mid: Seq<Request>, c: Result<u32, ErrorView>|
        #[trigger] read_count_did(answers, past, mid, c) && match c {
            Err(e) => after == mid && r == Err::<(), ErrorView>(e),
            Ok(n) => then_did(
                set_step(answers, count_option(), decimal(count_after_connect(n) as nat)),
                disable_rename_step(answers),
                mid,
                after,
                r,
            ),
        }
}

/// `decrement_ssh_count`: read the count `n`; on success, when `n - 1` is 0,
/// restore renaming, else write `n - 1` (and nothing else).
pub open spec fn decrement_did(
    answers: Answers,
    past: Seq<Request>,
    after: Seq<Request>,
    r: Result<(), ErrorView>,
) -> bool {
    exists|mid: Seq<Request>, c: Result<u32, ErrorView>|
        #[trigger] read_count_did(answers, past, mid, c) && match c {
            Err(e) => after == mid && r == Err::<(), ErrorView>(e),
            Ok(n) => if count_after_disconnect(n) == 0 {
                restore_rename_did(answers, mid, after, r)
            } else {
                set_option_did(answers, mid, after, count_option(), decimal(count_after_disconnect(n) as nat), r)
            },
        }
}

/// A count that was written reads back unchanged: when tmux prints the decimal
/// text that `write_ssh_count` set, reading the count gives the same number.
pub proof fn law_written_count_reads_back(n: u32, stderr: Seq<char>)
    ensures
        count_outcome(
            Ok(OutputView { exit_code: 0, stdout: decimal(n as nat), stderr }),
        ) == Ok::<u32, ErrorView>(n),
{
    crate::text::law_parse_decimal_round_trip(n);
}

/// Closing a connection undoes opening one, below the saturation point.
pub proof fn law_disconnect_undoes_connect(n: u32)
    requires
        n < u32::MAX,
    ensures
        count_after_disconnect(count_after_connect(n)) == n,
{
}

/// Closing the only connection brings the count to 0, which restores renaming;
/// with no connection counted, the count stays 0.
pub proof fn law_last_disconnect_reaches_zero(n: u32)
    requires
        n <= 1,
    ensures
        count_after_disconnect(n) == 0,
{
}

// ---------------------------------------------------------------------------
// A window's options across a connection
// ---------------------------------------------------------------------------

/// The window options `w` after tmux carries out `req`: `set-window-option -u k`
/// removes `k`, `set-window-option k v` sets `k` to `v`; nothing else changes them.
pub open spec fn window_after(w: Map<Seq<char>, Seq<char>>, req: Request) -> Map<Seq<char>, Seq<char>> {
    if req.cmd == "tmux"@ && req.args.len() == 3 && req.args[0] == "set-window-option"@ {
        if req.args[1] == "-u"@ {
            w.remove(req.args[2])
        } else {
            w.insert(req.args[1], req.args[2])
        }
    } else {
        w
    }
}

/// The window options, starting from `w0`, after tmux carries out `reqs` in order.
pub open spec fn window_options(w0: Map<Seq<char>, Seq<char>>, reqs: Seq<Request>) -> Map<
    Seq<char>,
    Seq<char>,
>
    decreases reqs.len(),
{
    if reqs.len() == 0 {
        w0
    } else {
        window_after(window_options(w0, reqs.drop_last()), reqs.last())
    }
}

/// What tmux with window options `w` prints for `req`: for `show-window-option -v k`,
/// the value of `k` with exit code 0, or exit code 1 when `k` is unset; for any
/// other request, nothing, with exit code 0.
pub open spec fn window_reply(w: Map<Seq<char>, Seq<char>>, req: Request) -> OutputView {
    if req.cmd == "tmux"@ && req.args.len() == 3 && req.args[0] == "show-window-option"@
        && req.args[1] == "-v"@ {
        if w.contains_key(req.args[2]) {
            OutputView { exit_code: 0, stdout: w[req.args[2]], stderr: Seq::empty() }
        } else {
            OutputView { exit_code: 1, stdout: Seq::empty(), stderr: Seq::empty() }
        }
    } else {
        OutputView { exit_code: 0, stdout: Seq::empty(), stderr: Seq::empty() }
    }
}

/// The answers of a tmux whose window had the options `w0` before the requests
/// were made: each request is answered from the options the earlier ones left.
pub open spec fn tmux_window(w0: Map<Seq<char>, Seq<char>>) -> Answers {
    |past: Seq<Request>, req: Request, o: Result<OutputView, ErrorView>|
        o == Ok::<OutputView, ErrorView>(window_reply(window_options(w0, past), req))
}

/// The window options `w` record `c` connections: the count is unset (for 0) or
/// holds the decimal text of `c`.
pub open spec fn holds_count(w: Map<Seq<char>, Seq<char>>, c: u32) -> bool {
    if w.contains_key(count_option()) {
        w[count_option()] == decimal(c as nat)
    } else {
        c == 0
    }
}

proof fn lemma_options_push(w0: Map<Seq<char>, Seq<char>>, h: Seq<Request>, req: Request)
    ensures
        window_options(w0, h.push(req)) == window_after(window_options(w0, h), req),
{
    assert(h.push(req).drop_last() =~= h);
}

pub(crate) proof fn lemma_option_names_differ()
    ensures
        count_option() != "automatic-rename"@,
        count_option() != "allow-rename"@,
        "automatic-rename"@ != "allow-rename"@,
        count_option() != "-u"@,
        "automatic-rename"@ != "-u"@,
        "allow-rename"@ != "-u"@,
        "set-window-option"@ != "show-window-option"@,
{
    reveal_strlit("@fterm_ssh_count");
    reveal_strlit("automatic-rename");
    reveal_strlit("allow-rename");
    reveal_strlit("-u");
    reveal_strlit("set-window-option");
    reveal_strlit("show-window-option");
    assert(count_option()[0] != "automatic-rename"@[0]);
    assert(count_option()[0] != "allow-rename"@[0]);
    assert("automatic-rename"@.len() != "allow-rename"@.len());
    assert(count_option().len() != "-u"@.len());
    assert("automatic-rename"@.len() != "-u"@.len());
    assert("allow-rename"@.len() != "-u"@.len());
    assert("set-window-option"@.len() != "show-window-option"@.len());
}

/// Setting an option against such a tmux succeeds and sets it.
pub(crate) proof fn lemma_set_in_window(
    w0: Map<Seq<char>, Seq<char>>,
    past: Seq<Request>,
    after: Seq<Request>,
    option: Seq<char>,
    value: Seq<char>,
    r: Result<(), ErrorView>,
)
    requires
        set_option_did(tmux_window(w0), past, after, option, value, r),
        option != "-u"@,
    ensures
        r == Ok::<(), ErrorView>(()),
        after == past.push(tmux_request(set_option_args(option, value))),
        window_options(w0, after) == window_options(w0, past).insert(option, value),
{
    lemma_option_names_differ();
    reveal_strlit("tmux");
    lemma_options_push(w0, past, tmux_request(set_option_args(option, value)));
}

/// Unsetting an option against such a tmux succeeds and removes it.
proof fn lemma_unset_in_window(
    w0: Map<Seq<char>, Seq<char>>,
    past: Seq<Request>,
    after: Seq<Request>,
    option: Seq<char>,
    r: Result<(), ErrorView>,
)
    requires
        unset_option_did(tmux_window(w0), past, after, option, r),
    ensures
        r == Ok::<(), ErrorView>(()),
        after == past.push(tmux_request(unset_option_args(option))),
        window_options(w0, after) == window_options(w0, past).remove(option),
{
    lemma_option_names_differ();
    lemma_options_push(w0, past, tmux_request(unset_option_args(option)));
}

/// Reading the count against such a tmux gives the count its options hold.
proof fn lemma_read_in_window(
    w0: Map<Seq<char>, Seq<char>>,
    past: Seq<Request>,
    after: Seq<Request>,
    c: u32,
    r: Result<u32, ErrorView>,
)
    requires
        read_count_did(tmux_window(w0), past, after, r),
        holds_count(window_options(w0, past), c),
    ensures
        r == Ok::<u32, ErrorView>(c),
        window_options(w0, after) == window_options(w0, past),
{
    lemma_option_names_differ();
    law_written_count_reads_back(c, Seq::empty());
    lemma_options_push(w0, past, tmux_request(show_count_args()));
    let w = window_options(w0, past);
    if w.contains_key(count_option()) {
        assert(window_reply(w, tmux_request(show_count_args())) == OutputView {
            exit_code: 0,
            stdout: decimal(c as nat),
            stderr: Seq::empty(),
        });
    }
}

/// Connecting counts one more connection and turns renaming off: against a tmux
/// whose window records `c` connections (`c` below the saturation point), a
/// successful `increment_ssh_count` leaves the count at `c + 1`, in decimal, with
/// `automatic-rename` and `allow-rename` off.
pub proof fn law_connect_counts_one_more(
    w0: Map<Seq<char>, Seq<char>>,
    past: Seq<Request>,
    after: Seq<Request>,
    c: u32,
)
    requires
        c < u32::MAX,
        holds_count(window_options(w0, past), c),
        increment_did(tmux_window(w0), past, after, Ok(())),
    ensures
        window_options(w0, after).contains_key(count_option()),
        window_options(w0, after)[count_option()] == decimal(c as nat + 1),
        window_options(w0, after).contains_key("automatic-rename"@),
        window_options(w0, after)["automatic-rename"@] == "off"@,
        window_options(w0, after).contains_key("allow-rename"@),
        window_options(w0, after)["allow-rename"@] == "off"@,
{
    let ans = tmux_window(w0);
    lemma_option_names_differ();
    let w = window_options(w0, past);
    let (m1, c1) = choose|m1: Seq<Request>, c1: Result<u32, ErrorView>|
        #[trigger] read_count_did(ans, past, m1, c1) && match c1 {
            Err(e) => after == m1 && Ok::<(), ErrorView>(()) == Err::<(), ErrorView>(e),
            Ok(n) => then_did(
                set_step(ans, count_option(), decimal(count_after_connect(n) as nat)),
                disable_rename_step(ans),
                m1,
                after,
                Ok(()),
            ),
        };
    lemma_read_in_window(w0, past, m1, c, c1);
    let up = decimal(count_after_connect(c) as nat);
    let (m2, r2) = choose|m2: Seq<Request>, r2: Result<(), ErrorView>|
        #[trigger] set_step(ans, count_option(), up)(m1, m2, r2) && match r2 {
            Err(e) => after == m2 && Ok::<(), ErrorView>(()) == Err::<(), ErrorView>(e),
            Ok(_) => disable_rename_step(ans)(m2, after, Ok(())),
        };
    lemma_set_in_window(w0, m1, m2, count_option(), up, r2);
    let (m3, r3) = choose|m3: Seq<Request>, r3: Result<(), ErrorView>|
        #[trigger] set_step(ans, "automatic-rename"@, "off"@)(m2, m3, r3) && match r3 {
            Err(e) => after == m3 && Ok::<(), ErrorView>(()) == Err::<(), ErrorView>(e),
            Ok(_) => set_step(ans, "allow-rename"@, "off"@)(m3, after, Ok(())),
        };
    lemma_set_in_window(w0, m2, m3, "automatic-rename"@, "off"@, r3);
    lemma_set_in_window(w0, m3, after, "allow-rename"@, "off"@, Ok(()));
}

/// Opening and then closing a connection, against a tmux whose window records `c`
/// connections (`c` below the saturation point): when `increment_ssh_count` and then
/// `decrement_ssh_count` both succeed, with `c >= 1` the window holds `c` again and
/// renaming stays off; with `c == 0` the count is unset and renaming is back on.
pub proof fn law_connect_then_disconnect_restores(
    w0: Map<Seq<char>, Seq<char>>,
    past: Seq<Request>,
    mid: Seq<Request>,
    after: Seq<Request>,
    c: u32,
)
    requires
        c < u32::MAX,
        holds_count(window_options(w0, past), c),
        increment_did(tmux_window(w0), past, mid, Ok(())),
        decrement_did(tmux_window(w0), mid, after, Ok(())),
    ensures
        c >= 1 ==> ({
            let w = window_options(w0, after);
            &&& w.contains_key(count_option()) && w[count_option()] == decimal(c as nat)
            &&& w.contains_key("automatic-rename"@) && w["automatic-rename"@] == "off"@
            &&& w.contains_key("allow-rename"@) && w["allow-rename"@] == "off"@
        }),
        c == 0 ==> ({
            let w = window_options(w0, after);
            &&& !w.contains_key(count_option())
            &&& w.contains_key("automatic-rename"@) && w["automatic-rename"@] == "on"@
            &&& w.contains_key("allow-rename"@) && w["allow-rename"@] == "on"@
        }),
{
    let ans = tmux_window(w0);
    lemma_option_names_differ();
    let w = window_options(w0, past);
    // The increment.
    let (m1, c1) = choose|m1: Seq<Request>, c1: Result<u32, ErrorView>|
        #[trigger] read_count_did(ans, past, m1, c1) && match c1 {
            Err(e) => mid == m1 && Ok::<(), ErrorView>(()) == Err::<(), ErrorView>(e),
            Ok(n) => then_did(
                set_step(ans, count_option(), decimal(count_after_connect(n) as nat)),
                disable_rename_step(ans),
                m1,
                mid,
                Ok(()),
            ),
        };
    lemma_read_in_window(w0, past, m1, c, c1);
    let up = decimal(count_after_connect(c) as nat);
    let (m2, r2) = choose|m2: Seq<Request>, r2: Result<(), ErrorView>|
        #[trigger] set_step(ans, count_option(), up)(m1, m2, r2) && match r2 {
            Err(e) => mid == m2 && Ok::<(), ErrorView>(()) == Err::<(), ErrorView>(e),
            Ok(_) => disable_rename_step(ans)(m2, mid, Ok(())),
        };
    lemma_set_in_window(w0, m1, m2, count_option(), up, r2);
    let (m3, r3) = choose|m3: Seq<Request>, r3: Result<(), ErrorView>|
        #[trigger] set_step(ans, "automatic-rename"@, "off"@)(m2, m3, r3) && match r3 {
            Err(e) => mid == m3 && Ok::<(), ErrorView>(()) == Err::<(), ErrorView>(e),
            Ok(_) => set_step(ans, "allow-rename"@, "off"@)(m3, mid, Ok(())),
        };
    lemma_set_in_window(w0, m2, m3, "automatic-rename"@, "off"@, r3);
    lemma_set_in_window(w0, m3, mid, "allow-rename"@, "off"@, Ok(()));
    let w1 = window_options(w0, mid);
    assert(w1 == w.insert(count_option(), up).insert("automatic-rename"@, "off"@).insert(
        "allow-rename"@,
        "off"@,
    ));
    let c_up = count_after_connect(c);
    assert(c_up == c + 1);
    assert(holds_count(w1, c_up));
    // The decrement.
    let (d1, e1) = choose|d1: Seq<Request>, e1: Result<u32, ErrorView>|
        #[trigger] read_count_did(ans, mid, d1, e1) && match e1 {
            Err(e) => after == d1 && Ok::<(), ErrorView>(()) == Err::<(), ErrorView>(e),
            Ok(n) => if count_after_disconnect(n) == 0 {
                restore_rename_did(ans, d1, after, Ok(()))
            } else {
                set_option_did(ans, d1, after, count_option(), decimal(count_after_disconnect(n) as nat), Ok(()))
            },
        };
    lemma_read_in_window(w0, mid, d1, c_up, e1);
    assert(count_after_disconnect(c_up) == c);
    if c >= 1 {
        lemma_set_in_window(w0, d1, after, count_option(), decimal(c as nat), Ok(()));
    } else {
        let (d2, f2) = choose|d2: Seq<Request>, f2: Result<(), ErrorView>|
            #[trigger] unset_step(ans, count_option())(d1, d2, f2) && match f2 {
                Err(e) => after == d2 && Ok::<(), ErrorView>(()) == Err::<(), ErrorView>(e),
                Ok(_) => enable_rename_step(ans)(d2, after, Ok(())),
            };
        lemma_unset_in_window(w0, d1, d2, count_option(), f2);
        let (d3, f3) = choose|d3: Seq<Request>, f3: Result<(), ErrorView>|
            #[trigger] set_step(ans, "allow-rename"@, "on"@)(d2, d3, f3) && match f3 {
                Err(e) => after == d3 && Ok::<(), ErrorView>(()) == Err::<(), ErrorView>(e),
                Ok(_) => set_step(ans, "automatic-rename"@, "on"@)(d3, after, Ok(())),
            };
        lemma_set_in_window(w0, d2, d3, "allow-rename"@, "on"@, f3);
        lemma_set_in_window(w0, d3, after, "automatic-rename"@, "on"@, Ok(()));
    }
}

// ---------------------------------------------------------------------------
// Operations
// ---------------------------------------------------------------------------

/// Increment the `@fterm_ssh_count` window option by one.
///
/// Reads the current value (defaulting to `0`), adds one, and writes it back.
/// Also disables window renaming so the user-set title is preserved.
pub fn increment_ssh_count<R: CommandRunner>(runner: &mut R) -> (r: Result<(), FtermError>)
    ensures
        increment_did(answers_of(old(runner)), old(runner).requests(), final(runner).requests(), result_view(r)),
        answers_of(final(runner)) == answers_of(old(runner)),
{
    let ghost ans = answers_of(old(runner));
    let ghost h0 = runner.requests();
    let read = read_ssh_count(runner);
    let ghost h1 = runner.requests();
    assert(read_count_did(ans, h0, h1, result_view(read)));
    let current = match read {
        Ok(n) => n,
        Err(e) => return Err(e),
    };
    let new_count = current.saturating_add(1);
    let written = write_ssh_count(runner, new_count);
    let ghost h2 = runner.requests();
    assert(set_step(ans, count_option(), decimal(count_after_connect(current) as nat))(
        h1,
        h2,
        result_view(written),
    ));
    match written {
        Ok(()) => {},
        Err(e) => return Err(e),
    }
    let disabled = disable_rename(runner);
    assert(disable_rename_step(ans)(h2, runner.requests(), result_view(disabled)));
    disabled
}

/// Decrement the `@fterm_ssh_count` window option by one.
///
/// When the count reaches zero, the option is unset and `allow-rename` and
/// `automatic-rename` are restored to `on` so tmux can manage window titles again.
pub fn decrement_ssh_count<R: CommandRunner>(runner: &mut R) -> (r: Result<(), FtermError>)
    ensures
        decrement_did(answers_of(old(runner)), old(runner).requests(), final(runner).requests(), result_view(r)),
        answers_of(final(runner)) == answers_of(old(runner)),
{
    let ghost ans = answers_of(old(runner));
    let ghost h0 = runner.requests();
    let read = read_ssh_count(runner);
    let ghost h1 = runner.requests();
    assert(read_count_did(ans, h0, h1, result_view(read)));
    let current = match read {
        Ok(n) => n,
        Err(e) => return Err(e),
    };
    let new_count = current.saturating_sub(1);
    if new_count == 0 {
        let unset = unset_window_option(runner, "@fterm_ssh_count");
        let ghost h2 = runner.requests();
        assert(unset_step(ans, count_option())(h1, h2, result_view(unset)));
        match unset {
            Ok(()) => {},
            Err(e) => {
                assert(restore_rename_did(ans, h1, h2, result_view(unset)));
                return Err(e);
            },
        }
        let enabled = enable_rename(runner);
        assert(enable_rename_step(ans)(h2, runner.requests(), result_view(enabled)));
        assert(restore_rename_did(ans, h1, runner.requests(), result_view(enabled)));
        enabled
    } else {
        write_ssh_count(runner, new_count)
    }
}

/// Disable automatic and manual window renaming.
///
/// Sets both `automatic-rename` and `allow-rename` to `off`.
pub fn disable_rename<R: CommandRunner>(runner: &mut R) -> (r: Result<(), FtermError>)
    ensures
        disable_rename_did(answers_of(old(runner)), old(runner).requests(), final(runner).requests(), result_view(r)),
        answers_of(final(runner)) == answers_of(old(runner)),
{
    let ghost ans = answers_of(old(runner));
    let ghost h0 = runner.requests();
    let first = set_window_option(runner, "automatic-rename", "off");
    let ghost h1 = runner.requests();
    assert(set_step(ans, "automatic-rename"@, "off"@)(h0, h1, result_view(first)));
    match first {
        Ok(()) => {},
        Err(e) => return Err(e),
    }
    let second = set_window_option(runner, "allow-rename", "off");
    assert(set_step(ans, "allow-rename"@, "off"@)(h1, runner.requests(), result_view(second)));
    second
}

/// Enable automatic and manual window renaming again.
///
/// Sets `allow-rename` and then `automatic-rename` to `on`.
pub fn enable_rename<R: CommandRunner>(runner: &mut R) -> (r: Result<(), FtermError>)
    ensures
        enable_rename_did(answers_of(old(runner)), old(runner).requests(), final(runner).requests(), result_view(r)),
        answers_of(final(runner)) == answers_of(old(runner)),
{
    let ghost ans = answers_of(old(runner));
    let ghost h0 = runner.requests();
    let first = set_window_option(runner, "allow-rename", "on");
    let ghost h1 = runner.requests();
    assert(set_step(ans, "allow-rename"@, "on"@)(h0, h1, result_view(first)));
    match first {
        Ok(()) => {},
        Err(e) => return Err(e),
    }
    let second = set_window_option(runner, "automatic-rename", "on");
    assert(set_step(ans, "automatic-rename"@, "on"@)(h1, runner.requests(), result_view(second)));
    second
}

/// Read the current `@fterm_ssh_count` value, defaulting to 0.
pub fn read_ssh_count<R: CommandRunner>(runner: &mut R) -> (r: Result<u32, FtermError>)
    ensures
        read_count_did(answers_of(old(runner)), old(runner).requests(), final(runner).requests(), result_view(r)),
        answers_of(final(runner)) == answers_of(old(runner)),
{
    let args: Vec<&str> = vec!["show-window-option", "-v", "@fterm_ssh_count"];
    assert(strs_view(args@) =~= show_count_args());
    let result = runner.run("tmux", args.as_slice(), 5);
    proof {
        crate::external::lemma_answers_kept(&*runner, &*old(runner));
    }
    let ghost o = result_view(result);
    assert(ran(answers_of(old(runner)), old(runner).requests(), tmux_request(show_count_args()), runner.requests(), o));
    match result {
        Err(e) => Err(e),
        Ok(output) => {
            if output.exit_code != 0 {
                return Ok(0);
            }
            let chars = chars_of(output.stdout.as_str());
            let trimmed = trim_chars(chars.as_slice());
            if trimmed.len() == 0 {
                return Ok(0);
            }
            match parse_u32_chars(trimmed.as_slice()) {
                Some(n) => Ok(n),
                None => Err(FtermError::InvalidCount(string_from_chars(trimmed.as_slice()))),
            }
        },
    }
}

/// Write the `@fterm_ssh_count` window option.
pub fn write_ssh_count<R: CommandRunner>(runner: &mut R, count: u32) -> (r: Result<(), FtermError>)
    ensures
        set_option_did(
            answers_of(old(runner)),
            old(runner).requests(),
            final(runner).requests(),
            count_option(),
            decimal(count as nat),
            result_view(r),
        ),
        answers_of(final(runner)) == answers_of(old(runner)),
{
    let mut count_str = String::new();
    push_decimal(&mut count_str, count as u64);
    set_window_option(runner, "@fterm_ssh_count", count_str.as_str())
}

/// Unset (remove) a tmux window option.
pub fn unset_window_option<R: CommandRunner>(runner: &mut R, option: &str) -> (r: Result<(), FtermError>)
    ensures
        unset_option_did(answers_of(old(runner)), old(runner).requests(), final(runner).requests(), option@, result_view(r)),
        answers_of(final(runner)) == answers_of(old(runner)),
{
    let args: Vec<&str> = vec!["set-window-option", "-u", option];
    assert(strs_view(args@) =~= unset_option_args(option@));
    let result = runner.run("tmux", args.as_slice(), 5);
    proof {
        crate::external::lemma_answers_kept(&*runner, &*old(runner));
    }
    let ghost o = result_view(result);
    assert(ran(answers_of(old(runner)), old(runner).requests(), tmux_request(unset_option_args(option@)), runner.requests(), o));
    match result {
        Err(e) => Err(e),
        Ok(output) => {
            if output.exit_code != 0 {
                let mut command = "tmux set-window-option -u ".to_owned();
                command.append(option);
                Err(command_failed(command, &output))
            } else {
                Ok(())
            }
        },
    }
}

/// Set a tmux window option.
pub fn set_window_option<R: CommandRunner>(runner: &mut R, option: &str, value: &str) -> (r: Result<
    (),
    FtermError,
>)
    ensures
        set_option_did(
            answers_of(old(runner)),
            old(runner).requests(),
            final(runner).requests(),
            option@,
            value@,
            result_view(r),
        ),
        answers_of(final(runner)) == answers_of(old(runner)),
{
    let args: Vec<&str> = vec!["set-window-option", option, value];
    assert(strs_view(args@) =~= set_option_args(option@, value@));
    let result = runner.run("tmux", args.as_slice(), 5);
    proof {
        crate::external::lemma_answers_kept(&*runner, &*old(runner));
    }
    let ghost o = result_view(result);
    assert(ran(
        answers_of(old(runner)),
        old(runner).requests(),
        tmux_request(set_option_args(option@, value@)),
        runner.requests(),
        o,
    ));
    match result {
        Err(e) => Err(e),
        Ok(output) => {
            if output.exit_code != 0 {
                let mut command = "tmux set-window-option ".to_owned();
                command.append(option);
                command.append(" ");
                command.append(value);
                Err(command_failed(command, &output))
            } else {
                Ok(())
            }
        },
    }
}

} // verus!
