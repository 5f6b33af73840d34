//! Stopping session logging: the tmux side, the disconnect marker, compression.
//!
//! Stopping a session disables the tmux pipe-pane, appends a timestamped
//! disconnect marker to the log file, compresses it with gzip, and then unsets the
//! pane's logging option, so that while the option is set the `.log` file exists.
//! [`stop_begin`] and [`stop_finish`] make the tmux and gzip requests through a
//! [`CommandRunner`]; the caller checks for the log file and appends the marker
//! between them.

use vstd::prelude::*;

use crate::error::{result_view, ErrorView, FtermError};
use crate::external::{
    answers_of, command_failed, failed_command, ran, request, Answers, CommandRunner, OutputView, Request,
};
use crate::tmux::window::tmux_request;
use crate::util::clock::{
    format_reading, line_stamp_layout, local_now, reading_in_range, reading_text, ClockReading,
};

verus! {

/// Arguments of `tmux` that stop piping the pane's output.
pub open spec fn pipe_pane_args() -> Seq<Seq<char>> {
    seq!["pipe-pane"@]
}

/// Arguments of `tmux` that unset the pane's logging option.
pub open spec fn unset_logging_args() -> Seq<Seq<char>> {
    seq!["set-option"@, "-p"@, "-u"@, "@fterm_logging"@]
}

/// Arguments of `gzip` that compress the log at `path`, replacing any older archive.
pub open spec fn gzip_args(path: Seq<char>) -> Seq<Seq<char>> {
    seq!["--force"@, path]
}

/// What stopping the pipe gives for each answer of `tmux pipe-pane`.
pub open spec fn pipe_stop_outcome(outcome: Result<OutputView, ErrorView>) -> Result<(), ErrorView> {
    match outcome {
        Err(e) => Err(e),
        Ok(out) => if out.exit_code != 0 {
            Err(failed_command("tmux pipe-pane"@, out))
        } else {
            Ok(())
        },
    }
}

/// What unsetting the logging option gives: a failing exit code is not an error.
pub open spec fn unset_logging_outcome(outcome: Result<OutputView, ErrorView>) -> Result<(), ErrorView> {
    match outcome {
        Err(e) => Err(e),
        Ok(_) => Ok(()),
    }
}

/// Disables the tmux pipe-pane that copies the pane's output to the log.
pub fn stop_pipe_pane<R: CommandRunner>(runner: &mut R) -> (r: Result<(), FtermError>)
    ensures
        exists|o: Result<OutputView, ErrorView>|
            #[trigger] ran(
                answers_of(old(runner)),
                old(runner).requests(),
                tmux_request(pipe_pane_args()),
                final(runner).requests(),
                o,
            ) && result_view(r) == pipe_stop_outcome(o),
        answers_of(final(runner)) == answers_of(old(runner)),
{
    let args: Vec<&str> = vec!["pipe-pane"];
    assert(crate::external::strs_view(args@) =~= pipe_pane_args());
    let result = runner.run("tmux", args.as_slice(), 5);
    proof {
        crate::external::lemma_answers_kept(&*runner, &*old(runner));
    }
    assert(ran(
        answers_of(old(runner)),
        old(runner).requests(),
        tmux_request(pipe_pane_args()),
        runner.requests(),
        result_view(result),
    ));
    match result {
        Err(e) => Err(e),
        Ok(output) => {
            if output.exit_code != 0 {
                Err(command_failed("tmux pipe-pane".to_owned(), &output))
            } else {
                Ok(())
            }
        },
    }
}

/// Unsets the pane's `@fterm_logging` option; a non-zero exit code is not an error.
pub fn unset_pane_logging<R: CommandRunner>(runner: &mut R) -> (r: Result<(), FtermError>)
    ensures
        exists|o: Result<OutputView, ErrorView>|
            #[trigger] ran(
                answers_of(old(runner)),
                old(runner).requests(),
                tmux_request(unset_logging_args()),
                final(runner).requests(),
                o,
            ) && result_view(r) == unset_logging_outcome(o),
        answers_of(final(runner)) == answers_of(old(runner)),
{
    let args: Vec<&str> = vec!["set-option", "-p", "-u", "@fterm_logging"];
    assert(crate::external::strs_view(args@) =~= unset_logging_args());
    let result = runner.run("tmux", args.as_slice(), 5);
    proof {
        crate::external::lemma_answers_kept(&*runner, &*old(runner));
    }
    assert(ran(
        answers_of(old(runner)),
        old(runner).requests(),
        tmux_request(unset_logging_args()),
        runner.requests(),
        result_view(result),
    ));
    match result {
        Ok(_) => Ok(()),
        Err(e) => Err(e),
    }
}

/// The marker appended to a log when its session ends.
pub open spec fn marker_text(timestamp: Seq<char>) -> Seq<char> {
    "["@ + timestamp + "] === Session Disconnected ===\n"@
}

/// The disconnect marker for a given timestamp.
pub fn disconnect_marker(timestamp: &str) -> (r: String)
    ensures
        r@ == marker_text(timestamp@),
{
    let mut r = "[".to_owned();
    r.append(timestamp);
    r.append("] === Session Disconnected ===\n");
    r
}

/// The disconnect marker stamped with the local time now, laid out
/// `YYYY-MM-DDThh:mm:ss+ZZZZ`.
pub fn disconnect_marker_now() -> (r: String)
    ensures
        exists|t: ClockReading|
            reading_in_range(t) && r@ == marker_text(#[trigger] reading_text(t, line_stamp_layout())),
{
    let t = local_now();
    let ts = format_reading(t, "%Y-%m-%dT%H:%M:%S%z");
    let r = disconnect_marker(ts.as_str());
    assert(r@ == marker_text(reading_text(t, line_stamp_layout())));
    r
}

/// The `gzip` request that compresses the log at `path` (timeout 30 s).
pub open spec fn gzip_request(path: Seq<char>) -> Request {
    request("gzip"@, gzip_args(path), 30)
}

/// What compressing the log gives for each answer of `gzip`.
pub open spec fn gzip_outcome(path: Seq<char>, outcome: Result<OutputView, ErrorView>) -> Result<
    (),
    ErrorView,
> {
    match outcome {
        Err(e) => Err(e),
        Ok(out) => if out.exit_code != 0 {
            Err(failed_command("gzip --force "@ + path, out))
        } else {
            Ok(())
        },
    }
}

/// Compresses the log at `log_path` by running `gzip --force log_path` (timeout 30 s).
pub fn compress_log<R: CommandRunner>(runner: &mut R, log_path: &str) -> (r: Result<(), FtermError>)
    ensures
        exists|o: Result<OutputView, ErrorView>|
            #[trigger] ran(
                answers_of(old(runner)),
                old(runner).requests(),
                gzip_request(log_path@),
                final(runner).requests(),
                o,
            ) && result_view(r) == gzip_outcome(log_path@, o),
        answers_of(final(runner)) == answers_of(old(runner)),
{
    let args: Vec<&str> = vec!["--force", log_path];
    assert(crate::external::strs_view(args@) =~= gzip_args(log_path@));
    let result = runner.run("gzip", args.as_slice(), 30);
    proof {
        crate::external::lemma_answers_kept(&*runner, &*old(runner));
    }
    assert(ran(
        answers_of(old(runner)),
        old(runner).requests(),
        gzip_request(log_path@),
        runner.requests(),
        result_view(result),
    ));
    match result {
        Err(e) => Err(e),
        Ok(output) => {
            if output.exit_code != 0 {
                let mut command = "gzip --force ".to_owned();
                command.append(log_path);
                Err(command_failed(command, &output))
            } else {
                Ok(())
            }
        },
    }
}

/// Beginning to stop a session's logging: `tmux pipe-pane`; when it fails, nothing
/// more. Else, with a log file, `Ok(true)` (the log is to be finished: marker and
/// compression) and nothing more; without one, the unset of the logging option,
/// whose failure to run is the error, and `Ok(false)`.
pub open spec fn stop_begin_did(
    answers: Answers,
    log_exists: bool,
    past: Seq<Request>,
    after: Seq<Request>,
    r: Result<bool, ErrorView>,
) -> bool {
    exists|mid: Seq<Request>, pipe: Result<OutputView, ErrorView>|
        #[trigger] ran(answers, past, tmux_request(pipe_pane_args()), mid, pipe) && match pipe_stop_outcome(
            pipe,
        ) {
            Err(e) => after == mid && r == Err::<bool, ErrorView>(e),
            Ok(_) => if log_exists {
                after == mid && r == Ok::<bool, ErrorView>(true)
            } else {
                exists|unset: Result<OutputView, ErrorView>|
                    #[trigger] ran(answers, mid, tmux_request(unset_logging_args()), after, unset) && r
                        == match unset_logging_outcome(unset) {
                        Err(e) => Err::<bool, ErrorView>(e),
                        Ok(_) => Ok::<bool, ErrorView>(false),
                    }
            },
        }
}

/// Stopping without a log file always unsets the logging option: when it succeeds,
/// the requests made are exactly `tmux pipe-pane`, then
/// `tmux set-option -p -u @fterm_logging`, and there is nothing more to finish.
pub proof fn law_stop_without_log_unsets_logging(
    answers: Answers,
    past: Seq<Request>,
    after: Seq<Request>,
    r: Result<bool, ErrorView>,
)
    requires
        stop_begin_did(answers, false, past, after, r),
        r is Ok,
    ensures
        after == past.push(request("tmux"@, seq!["pipe-pane"@], 5)).push(
            request("tmux"@, seq!["set-option"@, "-p"@, "-u"@, "@fterm_logging"@], 5),
        ),
        r == Ok::<bool, ErrorView>(false),
{
}

/// Begins stopping a session's logging: disables the pipe-pane and, when the log
/// file does not exist (`log_exists` false), unsets the pane's logging option and
/// ends there. `Ok(true)`: the log exists, and the caller appends the disconnect
/// marker and then calls [`stop_finish`].
pub fn stop_begin<R: CommandRunner>(runner: &mut R, log_exists: bool) -> (r: Result<bool, FtermError>)
    ensures
        stop_begin_did(
            answers_of(old(runner)),
            log_exists,
            old(runner).requests(),
            final(runner).requests(),
            result_view(r),
        ),
        answers_of(final(runner)) == answers_of(old(runner)),
{
    let ghost ans = answers_of(old(runner));
    let ghost h0 = runner.requests();
    let stopped = stop_pipe_pane(runner);
    let ghost h1 = runner.requests();
    let ghost pipe = choose|o: Result<OutputView, ErrorView>|
        #[trigger] ran(ans, h0, tmux_request(pipe_pane_args()), h1, o) && result_view(stopped)
            == pipe_stop_outcome(o);
    match stopped {
        Err(e) => {
            assert(ran(ans, h0, tmux_request(pipe_pane_args()), h1, pipe));
            Err(e)
        },
        Ok(()) => {
            if log_exists {
                assert(ran(ans, h0, tmux_request(pipe_pane_args()), h1, pipe));
                Ok(true)
            } else {
                let unset = unset_pane_logging(runner);
                let ghost u = choose|o: Result<OutputView, ErrorView>|
                    #[trigger] ran(ans, h1, tmux_request(unset_logging_args()), runner.requests(), o)
                        && result_view(unset) == unset_logging_outcome(o);
                let r = match unset {
                    Err(e) => Err(e),
                    Ok(()) => Ok(false),
                };
                assert(ran(ans, h1, tmux_request(unset_logging_args()), runner.requests(), u));
                assert(ran(ans, h0, tmux_request(pipe_pane_args()), h1, pipe));
                r
            }
        },
    }
}

/// How finishing a session's log ends, for each answer of `gzip` (`gz`) and of the
/// unset of the logging option (`unset`): the compression's failure, else the
/// unset's outcome.
pub open spec fn stop_finish_outcome(
    log_path: Seq<char>,
    gz: Result<OutputView, ErrorView>,
    unset: Result<OutputView, ErrorView>,
) -> Result<(), ErrorView> {
    match gzip_outcome(log_path, gz) {
        Err(e) => Err(e),
        Ok(_) => unset_logging_outcome(unset),
    }
}

/// Finishing a session's log: first `gzip --force log_path`, then, once it has
/// answered (whatever it answered), the unset of the logging option.
pub open spec fn stop_finish_did(
    answers: Answers,
    log_path: Seq<char>,
    past: Seq<Request>,
    after: Seq<Request>,
    r: Result<(), ErrorView>,
) -> bool {
    exists|mid: Seq<Request>, gz: Result<OutputView, ErrorView>, unset: Result<OutputView, ErrorView>|
        #![trigger ran(answers, past, gzip_request(log_path), mid, gz), ran(answers, mid, tmux_request(unset_logging_args()), after, unset)]
        ran(answers, past, gzip_request(log_path), mid, gz) && ran(
            answers,
            mid,
            tmux_request(unset_logging_args()),
            after,
            unset,
        ) && r == stop_finish_outcome(log_path, gz, unset)
}

/// Finishes a session's log once its disconnect marker is written: compresses it
/// with gzip, then unsets the pane's logging option (also when compression failed),
/// so that while the option is set the `.log` file still exists.
pub fn stop_finish<R: CommandRunner>(runner: &mut R, log_path: &str) -> (r: Result<(), FtermError>)
    ensures
        stop_finish_did(
            answers_of(old(runner)),
            log_path@,
            old(runner).requests(),
            final(runner).requests(),
            result_view(r),
        ),
        answers_of(final(runner)) == answers_of(old(runner)),
{
    let ghost ans = answers_of(old(runner));
    let ghost h0 = runner.requests();
    let compressed = compress_log(runner, log_path);
    let ghost h1 = runner.requests();
    let ghost gz = choose|o: Result<OutputView, ErrorView>|
        #[trigger] ran(ans, h0, gzip_request(log_path@), h1, o) && result_view(compressed) == gzip_outcome(
            log_path@,
            o,
        );
    let unset = unset_pane_logging(runner);
    let ghost u = choose|o: Result<OutputView, ErrorView>|
        #[trigger] ran(ans, h1, tmux_request(unset_logging_args()), runner.requests(), o)
            && result_view(unset) == unset_logging_outcome(o);
    let r = match compressed {
        Err(e) => Err(e),
        Ok(()) => unset,
    };
    assert(ran(ans, h0, gzip_request(log_path@), h1, gz));
    assert(ran(ans, h1, tmux_request(unset_logging_args()), runner.requests(), u));
    assert(result_view(r) == stop_finish_outcome(log_path@, gz, u));
    r
}

} // verus!
