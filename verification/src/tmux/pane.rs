//! Tmux pane state set around a connection: the pane's style, its title, and the
//! `@fterm_ssh_host` pane option.
//!
//! Each command goes through a [`CommandRunner`] (timeout 5 s) and succeeds when
//! tmux exits with 0; each function hands over exactly one command.

use vstd::prelude::*;

use crate::error::{result_view, ErrorView, FtermError};
use crate::external::{
    answers_of, command_failed, command_key_of, ran, strs_view, Answers, CommandRunner, MockCommandRunner,
    OutputView, Request,
};
use crate::tmux::window::{status_outcome, tmux_request};

verus! {

/// Running `tmux args` for its exit status: one request, whose answer gives `r`.
pub open spec fn tmux_status_did(
    answers: Answers,
    past: Seq<Request>,
    after: Seq<Request>,
    args: Seq<Seq<char>>,
    r: Result<(), ErrorView>,
) -> bool {
    exists|o: Result<OutputView, ErrorView>|
        #[trigger] ran(answers, past, tmux_request(args), after, o) && r == status_outcome(
            command_key_of("tmux"@, args),
            o,
        )
}

/// Arguments of `tmux` that reset the pane's style.
pub open spec fn reset_style_args() -> Seq<Seq<char>> {
    seq!["select-pane"@, "-P"@, "default"@]
}

/// Arguments of `tmux` that set the pane's title.
pub open spec fn set_title_args(title: Seq<char>) -> Seq<Seq<char>> {
    seq!["select-pane"@, "-T"@, title]
}

/// Arguments of `tmux` that set the pane's `@fterm_ssh_host` option.
pub open spec fn set_ssh_host_args(value: Seq<char>) -> Seq<Seq<char>> {
    seq!["set-option"@, "-p"@, "@fterm_ssh_host"@, value]
}

/// Arguments of `tmux` that unset the pane's `@fterm_ssh_host` option.
pub open spec fn unset_ssh_host_args() -> Seq<Seq<char>> {
    seq!["set-option"@, "-p"@, "-u"@, "@fterm_ssh_host"@]
}

/// Runs `tmux args`: the runner's error, a failure for a non-zero exit code, or
/// success.
pub fn run_tmux_status<R: CommandRunner>(runner: &mut R, args: &[&str]) -> (r: Result<(), FtermError>)
    ensures
        tmux_status_did(
            answers_of(old(runner)),
            old(runner).requests(),
            final(runner).requests(),
            strs_view(args@),
            result_view(r),
        ),
        answers_of(final(runner)) == answers_of(old(runner)),
{
    let result = runner.run("tmux", args, 5);
    proof {
        crate::external::lemma_answers_kept(&*runner, &*old(runner));
    }
    let ghost o = result_view(result);
    let r = match result {
        Err(e) => Err(e),
        Ok(out) => {
            if out.exit_code != 0 {
                Err(command_failed(MockCommandRunner::command_key("tmux", args), &out))
            } else {
                Ok(())
            }
        },
    };
    assert(ran(
        answers_of(old(runner)),
        old(runner).requests(),
        tmux_request(strs_view(args@)),
        runner.requests(),
        o,
    ));
    r
}

/// Resets the pane's style to the default.
pub fn reset_style<R: CommandRunner>(runner: &mut R) -> (r: Result<(), FtermError>)
    ensures
        tmux_status_did(
            answers_of(old(runner)),
            old(runner).requests(),
            final(runner).requests(),
            reset_style_args(),
            result_view(r),
        ),
        answers_of(final(runner)) == answers_of(old(runner)),
{
    let args: Vec<&str> = vec!["select-pane", "-P", "default"];
    assert(strs_view(args@) =~= reset_style_args());
    run_tmux_status(runner, args.as_slice())
}

/// Sets the pane's title.
pub fn set_title<R: CommandRunner>(runner: &mut R, title: &str) -> (r: Result<(), FtermError>)
    ensures
        tmux_status_did(
            answers_of(old(runner)),
            old(runner).requests(),
            final(runner).requests(),
            set_title_args(title@),
            result_view(r),
        ),
        answers_of(final(runner)) == answers_of(old(runner)),
{
    let args: Vec<&str> = vec!["select-pane", "-T", title];
    assert(strs_view(args@) =~= set_title_args(title@));
    run_tmux_status(runner, args.as_slice())
}

/// Sets the pane's `@fterm_ssh_host` option.
pub fn set_ssh_host<R: CommandRunner>(runner: &mut R, value: &str) -> (r: Result<(), FtermError>)
    ensures
        tmux_status_did(
            answers_of(old(runner)),
            old(runner).requests(),
            final(runner).requests(),
            set_ssh_host_args(value@),
            result_view(r),
        ),
        answers_of(final(runner)) == answers_of(old(runner)),
{
    let args: Vec<&str> = vec!["set-option", "-p", "@fterm_ssh_host", value];
    assert(strs_view(args@) =~= set_ssh_host_args(value@));
    run_tmux_status(runner, args.as_slice())
}

/// Unsets the pane's `@fterm_ssh_host` option.
pub fn unset_ssh_host<R: CommandRunner>(runner: &mut R) -> (r: Result<(), FtermError>)
    ensures
        tmux_status_did(
            answers_of(old(runner)),
            old(runner).requests(),
            final(runner).requests(),
            unset_ssh_host_args(),
            result_view(r),
        ),
        answers_of(final(runner)) == answers_of(old(runner)),
{
    let args: Vec<&str> = vec!["set-option", "-p", "-u", "@fterm_ssh_host"];
    assert(strs_view(args@) =~= unset_ssh_host_args());
    run_tmux_status(runner, args.as_slice())
}

} // verus!
