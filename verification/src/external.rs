//! External command execution abstraction.
//!
//! [`CommandRunner`] is the interface through which the crate runs external
//! commands (ssh, ssh-add, ssh-keygen, tmux, gzip). A runner keeps the sequence of
//! commands handed to `run`, and each answer is tied to the runner's own relation
//! (`run_allows`, ...) over the request and the requests before it, so callers can
//! state exactly which commands they hand over, in which order, and what they do
//! with every possible answer. [`RealCommandRunner`] runs commands through a
//! [`ProcessSpawner`]; [`MockCommandRunner`] answers from registered responses.

use vstd::prelude::*;

use crate::error::{result_view, ErrorView, FtermError};
use crate::text::{chars_of, decimal, lines_of, string_from_chars, text_lines, trim, trim_chars};

verus! {

// ---------------------------------------------------------------------------
// Data types
// ---------------------------------------------------------------------------

/// Output from an external command execution.
#[derive(Debug, Clone)]
pub struct CommandOutput {
    /// Process exit code (0 = success).
    pub exit_code: i32,
    /// Captured stdout content.
    pub stdout: String,
    /// Captured stderr content.
    pub stderr: String,
}

/// The value of a [`CommandOutput`].
pub struct OutputView {
    pub exit_code: i32,
    pub stdout: Seq<char>,
    pub stderr: Seq<char>,
}

impl View for CommandOutput {
    type V = OutputView;

    open spec fn view(&self) -> OutputView {
        OutputView { exit_code: self.exit_code, stdout: self.stdout@, stderr: self.stderr@ }
    }
}

impl CommandOutput {
    /// A copy of this output.
    pub fn duplicate(&self) -> (r: CommandOutput)
        ensures
            r@ == self@,
    {
        CommandOutput {
            exit_code: self.exit_code,
            stdout: self.stdout.clone(),
            stderr: self.stderr.clone(),
        }
    }
}

/// Result of `ssh-add -l` listing agent keys.
#[derive(Debug, Clone)]
pub struct AgentListResult {
    /// Whether the agent is available.
    pub available: bool,
    /// Raw output lines from `ssh-add -l`.
    pub keys: Vec<String>,
}

/// The value of an [`AgentListResult`].
pub struct AgentListView {
    pub available: bool,
    pub keys: Seq<Seq<char>>,
}

/// The character sequences held by a sequence of strings.
pub open spec fn strings_view(v: Seq<String>) -> Seq<Seq<char>> {
    v.map_values(|s: String| s@)
}

/// The character sequences held by a sequence of string slices.
pub open spec fn strs_view(v: Seq<&str>) -> Seq<Seq<char>> {
    v.map_values(|s: &str| s@)
}

impl View for AgentListResult {
    type V = AgentListView;

    open spec fn view(&self) -> AgentListView {
        AgentListView { available: self.available, keys: strings_view(self.keys@) }
    }
}

/// Copies a vector of strings.
pub fn copy_strings(v: &Vec<String>) -> (r: Vec<String>)
    ensures
        strings_view(r@) == strings_view(v@),
{
    let mut r: Vec<String> = Vec::new();
    let mut i: usize = 0;
    while i < v.len()
        invariant
            i <= v@.len(),
            strings_view(r@) == strings_view(v@).take(i as int),
        decreases v@.len() - i,
    {
        let ghost before = strings_view(r@);
        let c = v[i].clone();
        assert(c@ == strings_view(v@)[i as int]);
        r.push(c);
        assert(strings_view(r@) =~= before.push(c@));
        i = i + 1;
        assert(strings_view(v@).take(i as int) =~= strings_view(v@).take(i - 1).push(c@));
    }
    assert(strings_view(v@).take(v@.len() as int) =~= strings_view(v@));
    r
}

impl AgentListResult {
    /// A copy of this result.
    pub fn duplicate(&self) -> (r: AgentListResult)
        ensures
            r@ == self@,
    {
        AgentListResult { available: self.available, keys: copy_strings(&self.keys) }
    }
}

/// The output a mock gives for a command with nothing registered: exit code 0,
/// nothing on stdout or stderr.
pub open spec fn empty_output() -> OutputView {
    OutputView { exit_code: 0, stdout: Seq::empty(), stderr: Seq::empty() }
}

/// The answer of an agent that is not available.
pub open spec fn unavailable_agent() -> AgentListView {
    AgentListView { available: false, keys: Seq::empty() }
}

/// What a command run gives to a caller that wants only its exit code: the exit
/// code of the output, or the error unchanged.
pub open spec fn exit_code_outcome(o: Result<OutputView, ErrorView>) -> Result<i32, ErrorView> {
    match o {
        Ok(out) => Ok(out.exit_code),
        Err(e) => Err(e),
    }
}

// ---------------------------------------------------------------------------
// The runner interface
// ---------------------------------------------------------------------------

/// A command handed to [`CommandRunner::run`]: its name, its arguments, and its
/// timeout in seconds (0: none).
pub struct Request {
    pub cmd: Seq<char>,
    pub args: Seq<Seq<char>>,
    pub timeout_secs: u64,
}

/// The request for `cmd` with `args` and a timeout.
pub open spec fn request(cmd: Seq<char>, args: Seq<Seq<char>>, timeout_secs: u64) -> Request {
    Request { cmd, args, timeout_secs }
}

/// How a runner may answer: whether `run`, handed the commands `past` before, may
/// answer `req` with an outcome.
pub type Answers = spec_fn(Seq<Request>, Request, Result<OutputView, ErrorView>) -> bool;

/// How `runner` may answer `run`.
pub open spec fn answers_of<R: CommandRunner + ?Sized>(runner: &R) -> Answers {
    |past: Seq<Request>, req: Request, o: Result<OutputView, ErrorView>| runner.run_allows(past, req, o)
}

/// Runners that answer every request alike have the same answers.
pub(crate) proof fn lemma_answers_kept<R: CommandRunner + ?Sized>(a: &R, b: &R)
    requires
        forall|past: Seq<Request>, req: Request, o: Result<OutputView, ErrorView>|
            #[trigger] a.run_allows(past, req, o) == b.run_allows(past, req, o),
    ensures
        answers_of(a) == answers_of(b),
{
    assert(answers_of(a) =~= answers_of(b));
}

/// `runner` answered `req`, handed to it after `past`, with `o`, and its requests
/// are then `after`.
pub open spec fn ran(
    answers: Answers,
    past: Seq<Request>,
    req: Request,
    after: Seq<Request>,
    o: Result<OutputView, ErrorView>,
) -> bool {
    after == past.push(req) && answers(past, req, o)
}

/// Abstraction for external command execution.
///
/// Implementations can run real commands or return mock responses for testing.
/// A runner keeps the commands handed to `run`, in order ([`requests`]); what `run`
/// answers satisfies the implementation's relation for the request and the
/// requests before it: by default any outcome (as for the system's commands, whose
/// answers depend on what ran before), exactly one for [`MockCommandRunner`].
///
/// [`requests`]: CommandRunner::requests
pub trait CommandRunner {
    /// The commands handed to `run` so far, oldest first.
    spec fn requests(&self) -> Seq<Request>;

    /// Whether `run` may answer `req` with `outcome` when the commands `past` were
    /// handed to it before.
    open spec fn run_allows(
        &self,
        past: Seq<Request>,
        req: Request,
        outcome: Result<OutputView, ErrorView>,
    ) -> bool {
        true
    }

    /// Whether resolving `host` with `config_args` may give `outcome`.
    open spec fn resolve_allows(
        &self,
        host: Seq<char>,
        config_args: Seq<Seq<char>>,
        outcome: Result<Seq<char>, ErrorView>,
    ) -> bool {
        true
    }

    /// Whether listing the agent's keys may give `outcome`.
    open spec fn agent_list_allows(&self, outcome: Result<AgentListView, ErrorView>) -> bool {
        true
    }

    /// Whether asking for the fingerprint of the key at `path` may give `outcome`.
    open spec fn fingerprint_allows(&self, path: Seq<char>, outcome: Result<Seq<char>, ErrorView>) -> bool {
        true
    }

    /// Run a command with a timeout (0: none). The request joins the runner's
    /// requests; its answers to any request stay as they were.
    fn run(&mut self, cmd: &str, args: &[&str], timeout_secs: u64) -> (r: Result<CommandOutput, FtermError>)
        ensures
            final(self).requests() == old(self).requests().push(
                request(cmd@, strs_view(args@), timeout_secs),
            ),
            old(self).run_allows(
                old(self).requests(),
                request(cmd@, strs_view(args@), timeout_secs),
                result_view(r),
            ),
            forall|past: Seq<Request>, req: Request, o: Result<OutputView, ErrorView>|
                #[trigger] final(self).run_allows(past, req, o) == old(self).run_allows(past, req, o),
    ;

    /// Resolve SSH config for a host via `ssh -G`.
    fn ssh_resolve(&self, host: &str, config_args: &[String]) -> (r: Result<String, FtermError>)
        ensures
            self.resolve_allows(host@, strings_view(config_args@), result_view(r)),
    ;

    /// Run a command interactively, inheriting stdin/stdout/stderr.
    ///
    /// The default implementation delegates to `run` without a timeout and
    /// returns the exit code, which suits non-interactive contexts.
    fn run_interactive(&mut self, cmd: &str, args: &[&str]) -> (r: Result<i32, FtermError>)
        default_ensures
            final(self).requests() == old(self).requests().push(request(cmd@, strs_view(args@), 0)),
            exists|o: Result<OutputView, ErrorView>|
                #[trigger] old(self).run_allows(
                    old(self).requests(),
                    request(cmd@, strs_view(args@), 0),
                    o,
                ) && result_view(r) == exit_code_outcome(o),
    {
        match self.run(cmd, args, 0) {
            Ok(output) => Ok(output.exit_code),
            Err(e) => Err(e),
        }
    }

    /// List agent keys via `ssh-add -l`.
    fn ssh_agent_list(&self) -> (r: Result<AgentListResult, FtermError>)
        ensures
            self.agent_list_allows(result_view(r)),
    ;

    /// Get a key's fingerprint via `ssh-keygen -lf`.
    fn ssh_keygen_fingerprint(&self, path: &str) -> (r: Result<String, FtermError>)
        ensures
            self.fingerprint_allows(path@, result_view(r)),
    ;
}


// ---------------------------------------------------------------------------
// Command keys
// ---------------------------------------------------------------------------

/// Each argument preceded by a single space.
pub open spec fn spaced(args: Seq<Seq<char>>) -> Seq<char>
    decreases args.len(),
{
    if args.len() == 0 {
        Seq::empty()
    } else {
        spaced(args.drop_last()) + " "@ + args.last()
    }
}

/// The key under which a mock looks up a command: `"cmd arg1 arg2 …"`.
pub open spec fn command_key_of(cmd: Seq<char>, args: Seq<Seq<char>>) -> Seq<char> {
    cmd + spaced(args)
}

// ---------------------------------------------------------------------------
// Registered responses
// ---------------------------------------------------------------------------

/// The value registered last for `key` in `entries`, if any.
pub open spec fn latest<V>(entries: Seq<(Seq<char>, V)>, key: Seq<char>) -> Option<V>
    decreases entries.len(),
{
    if entries.len() == 0 {
        None
    } else if entries.last().0 == key {
        Some(entries.last().1)
    } else {
        latest(entries.drop_last(), key)
    }
}

/// The table that a list of registrations stands for: each key maps to the value
/// registered last for it.
pub open spec fn table_of<V>(entries: Seq<(Seq<char>, V)>) -> Map<Seq<char>, V> {
    Map::new(|k: Seq<char>| latest(entries, k) is Some, |k: Seq<char>| latest(entries, k)->0)
}

proof fn lemma_table_push<V>(entries: Seq<(Seq<char>, V)>, key: Seq<char>, value: V)
    ensures
        table_of(entries.push((key, value))) == table_of(entries).insert(key, value),
{
    let e2 = entries.push((key, value));
    assert(e2.drop_last() =~= entries);
    assert(table_of(e2) =~= table_of(entries).insert(key, value));
}

proof fn lemma_table_empty<V>(entries: Seq<(Seq<char>, V)>)
    requires
        entries.len() == 0,
    ensures
        table_of(entries) == Map::<Seq<char>, V>::empty(),
{
    assert(table_of(entries) =~= Map::<Seq<char>, V>::empty());
}

proof fn lemma_latest_at<V>(entries: Seq<(Seq<char>, V)>, key: Seq<char>, i: int)
    requires
        0 <= i < entries.len(),
        entries[i].0 == key,
        forall|j: int| i < j < entries.len() ==> entries[j].0 != key,
    ensures
        latest(entries, key) == Some(entries[i].1),
    decreases entries.len(),
{
    if i < entries.len() - 1 {
        let d = entries.drop_last();
        assert forall|j: int| i < j < d.len() implies d[j].0 != key by {
            assert(d[j] == entries[j]);
        }
        lemma_latest_at(d, key, i);
    }
}

proof fn lemma_latest_none<V>(entries: Seq<(Seq<char>, V)>, key: Seq<char>)
    requires
        forall|j: int| 0 <= j < entries.len() ==> entries[j].0 != key,
    ensures
        latest(entries, key) is None,
    decreases entries.len(),
{
    if entries.len() > 0 {
        let d = entries.drop_last();
        assert forall|j: int| 0 <= j < d.len() implies d[j].0 != key by {
            assert(d[j] == entries[j]);
        }
        lemma_latest_none(d, key);
    }
}

/// A registered answer that is either a value or a failure message.
#[derive(Debug)]
enum Reply {
    Value(String),
    Failure(String),
}

impl View for Reply {
    type V = Result<Seq<char>, Seq<char>>;

    closed spec fn view(&self) -> Result<Seq<char>, Seq<char>> {
        match self {
            Reply::Value(s) => Ok(s@),
            Reply::Failure(m) => Err(m@),
        }
    }
}

/// What a registered reply gives back to a caller.
pub open spec fn reply_outcome(reply: Option<Result<Seq<char>, Seq<char>>>) -> Result<
    Seq<char>,
    ErrorView,
> {
    match reply {
        Some(Ok(s)) => Ok(s),
        Some(Err(m)) => Err(ErrorView::Runner(m)),
        None => Ok(Seq::empty()),
    }
}

/// The value that registrations `e` hold, keyed by their strings.
pub open spec fn keyed_view<V: View>(e: Seq<(String, V)>) -> Seq<(Seq<char>, V::V)> {
    e.map_values(|p: (String, V)| (p.0@, p.1@))
}

/// Finds the position of the registration made last for `key`.
fn find_latest<V: View>(entries: &Vec<(String, V)>, key: &String) -> (r: Option<usize>)
    ensures
        match r {
            Some(i) => i < entries@.len() && latest(keyed_view(entries@), key@) == Some(
                entries@[i as int].1@,
            ),
            None => latest(keyed_view(entries@), key@) is None,
        },
{
    let ghost kv = keyed_view(entries@);
    let mut i: usize = entries.len();
    while i > 0
        invariant
            i <= entries@.len(),
            kv == keyed_view(entries@),
            forall|j: int| i <= j < kv.len() ==> kv[j].0 != key@,
        decreases i,
    {
        if entries[i - 1].0 == *key {
            proof {
                lemma_latest_at(kv, key@, i - 1);
            }
            return Some(i - 1);
        }
        i = i - 1;
    }
    proof {
        lemma_latest_none(kv, key@);
    }
    None
}

/// Replies to a request with the reply registered under `key`.
fn answer(entries: &Vec<(String, Reply)>, key: &String) -> (r: Result<String, FtermError>)
    ensures
        result_view(r) == reply_outcome(latest(keyed_view(entries@), key@)),
{
    match find_latest(entries, key) {
        Some(i) => match &entries[i].1 {
            Reply::Value(s) => Ok(s.clone()),
            Reply::Failure(m) => Err(FtermError::Runner(m.clone())),
        },
        None => Ok(String::new()),
    }
}

// ---------------------------------------------------------------------------
// Recorded calls
// ---------------------------------------------------------------------------

/// A command that was handed to a mock's `run`.
#[derive(Debug, Clone)]
pub struct RecordedCall {
    /// The command's name.
    pub cmd: String,
    /// Its arguments.
    pub args: Vec<String>,
    /// Its timeout in seconds (0: none).
    pub timeout_secs: u64,
}

impl View for RecordedCall {
    type V = Request;

    open spec fn view(&self) -> Request {
        Request { cmd: self.cmd@, args: strings_view(self.args@), timeout_secs: self.timeout_secs }
    }
}

/// The requests that recorded calls stand for.
pub open spec fn calls_view(calls: Seq<RecordedCall>) -> Seq<Request> {
    calls.map_values(|c: RecordedCall| c@)
}

/// Owned copies of string slices.
pub fn owned_strings(items: &[&str]) -> (r: Vec<String>)
    ensures
        strings_view(r@) == strs_view(items@),
{
    let mut r: Vec<String> = Vec::new();
    let mut i: usize = 0;
    while i < items.len()
        invariant
            i <= items@.len(),
            strings_view(r@) == strs_view(items@).take(i as int),
        decreases items@.len() - i,
    {
        let ghost before = strings_view(r@);
        let c = items[i].to_owned();
        r.push(c);
        assert(strings_view(r@) =~= before.push(items@[i as int]@));
        i = i + 1;
        assert(strs_view(items@).take(i as int) =~= strs_view(items@).take(i - 1).push(
            items@[i - 1]@,
        ));
    }
    assert(strs_view(items@).take(items@.len() as int) =~= strs_view(items@));
    r
}

// ---------------------------------------------------------------------------
// MockCommandRunner
// ---------------------------------------------------------------------------

/// Implementation of [`CommandRunner`] that answers from registered responses.
///
/// Responses are registered per command string, host or key path; a request
/// with nothing registered gets a default: a successful empty output, an empty
/// resolution or fingerprint, an unavailable agent.
#[derive(Debug)]
pub struct MockCommandRunner {
    /// Keyed by `"cmd arg1 arg2 …"`.
    run_responses: Vec<(String, CommandOutput)>,
    /// Keyed by `"cmd arg1 arg2 …"`: exit code only.
    interactive_responses: Vec<(String, i32)>,
    /// Keyed by host name.
    ssh_resolve_responses: Vec<(String, Reply)>,
    /// Single response for `ssh_agent_list`.
    agent_list_response: Option<AgentListResult>,
    /// Keyed by key path.
    fingerprint_responses: Vec<(String, Reply)>,
    /// The commands handed to `run`, oldest first.
    calls: Vec<RecordedCall>,
}

impl MockCommandRunner {
    /// The commands handed to `run` so far, oldest first.
    pub fn recorded_calls(&self) -> (r: &Vec<RecordedCall>)
        ensures
            calls_view(r@) == self.requests(),
    {
        &self.calls
    }

    /// Registered `run` outputs, by command key.
    pub closed spec fn run_table(&self) -> Map<Seq<char>, OutputView> {
        table_of(keyed_view(self.run_responses@))
    }

    /// Registered `run_interactive` exit codes, by command key.
    pub closed spec fn interactive_table(&self) -> Map<Seq<char>, i32> {
        table_of(keyed_view(self.interactive_responses@))
    }

    /// Registered `ssh_resolve` answers, by host: `Ok(output)` or `Err(message)`.
    pub closed spec fn resolve_table(&self) -> Map<Seq<char>, Result<Seq<char>, Seq<char>>> {
        table_of(keyed_view(self.ssh_resolve_responses@))
    }

    /// Registered `ssh_keygen_fingerprint` answers, by key path.
    pub closed spec fn fingerprint_table(&self) -> Map<Seq<char>, Result<Seq<char>, Seq<char>>> {
        table_of(keyed_view(self.fingerprint_responses@))
    }

    /// Registered `ssh_agent_list` answer.
    pub closed spec fn agent_response(&self) -> Option<AgentListView> {
        match self.agent_list_response {
            Some(a) => Some(a@),
            None => None,
        }
    }

    /// Create an empty mock.
    pub fn new() -> (r: Self)
        ensures
            r.run_table() == Map::<Seq<char>, OutputView>::empty(),
            r.interactive_table() == Map::<Seq<char>, i32>::empty(),
            r.resolve_table() == Map::<Seq<char>, Result<Seq<char>, Seq<char>>>::empty(),
            r.fingerprint_table() == Map::<Seq<char>, Result<Seq<char>, Seq<char>>>::empty(),
            r.agent_response() is None,
            r.requests() == Seq::<Request>::empty(),
    {
        let r = MockCommandRunner {
            run_responses: Vec::new(),
            interactive_responses: Vec::new(),
            ssh_resolve_responses: Vec::new(),
            agent_list_response: None,
            fingerprint_responses: Vec::new(),
            calls: Vec::new(),
        };
        assert(calls_view(r.calls@) =~= Seq::<Request>::empty());
        proof {
            lemma_table_empty(keyed_view(r.run_responses@));
            lemma_table_empty(keyed_view(r.interactive_responses@));
            lemma_table_empty(keyed_view(r.ssh_resolve_responses@));
            lemma_table_empty(keyed_view(r.fingerprint_responses@));
        }
        r
    }

    /// Register a response for a specific command invocation.
    pub fn with_run_response(self, key: &str, output: CommandOutput) -> (r: Self)
        ensures
            r.run_table() == self.run_table().insert(key@, output@),
            r.interactive_table() == self.interactive_table(),
            r.resolve_table() == self.resolve_table(),
            r.fingerprint_table() == self.fingerprint_table(),
            r.agent_response() == self.agent_response(),
            r.requests() == self.requests(),
    {
        let mut r = self;
        let ghost old_e = keyed_view(r.run_responses@);
        let k = key.to_owned();
        let ghost ov = output@;
        r.run_responses.push((k, output));
        proof {
            assert(keyed_view(r.run_responses@) =~= old_e.push((key@, ov)));
            lemma_table_push(old_e, key@, ov);
        }
        r
    }

    /// Register a response for an interactive command invocation.
    pub fn with_interactive_response(self, key: &str, exit_code: i32) -> (r: Self)
        ensures
            r.run_table() == self.run_table(),
            r.interactive_table() == self.interactive_table().insert(key@, exit_code),
            r.resolve_table() == self.resolve_table(),
            r.fingerprint_table() == self.fingerprint_table(),
            r.agent_response() == self.agent_response(),
            r.requests() == self.requests(),
    {
        let mut r = self;
        let ghost old_e = keyed_view(r.interactive_responses@);
        let k = key.to_owned();
        r.interactive_responses.push((k, exit_code));
        proof {
            assert(keyed_view(r.interactive_responses@) =~= old_e.push((key@, exit_code)));
            lemma_table_push(old_e, key@, exit_code);
        }
        r
    }

    /// Register a successful response for `ssh_resolve`.
    pub fn with_ssh_resolve(self, host: &str, output: &str) -> (r: Self)
        ensures
            r.run_table() == self.run_table(),
            r.interactive_table() == self.interactive_table(),
            r.resolve_table() == self.resolve_table().insert(host@, Ok(output@)),
            r.fingerprint_table() == self.fingerprint_table(),
            r.agent_response() == self.agent_response(),
            r.requests() == self.requests(),
    {
        let mut r = self;
        let ghost old_e = keyed_view(r.ssh_resolve_responses@);
        let reply = Reply::Value(output.to_owned());
        r.ssh_resolve_responses.push((host.to_owned(), reply));
        proof {
            assert(keyed_view(r.ssh_resolve_responses@) =~= old_e.push((host@, Ok(output@))));
            lemma_table_push(old_e, host@, Ok(output@));
        }
        r
    }

    /// Register an error response for `ssh_resolve`.
    pub fn with_ssh_resolve_error(self, host: &str, error_msg: &str) -> (r: Self)
        ensures
            r.run_table() == self.run_table(),
            r.interactive_table() == self.interactive_table(),
            r.resolve_table() == self.resolve_table().insert(host@, Err(error_msg@)),
            r.fingerprint_table() == self.fingerprint_table(),
            r.agent_response() == self.agent_response(),
            r.requests() == self.requests(),
    {
        let mut r = self;
        let ghost old_e = keyed_view(r.ssh_resolve_responses@);
        let reply = Reply::Failure(error_msg.to_owned());
        r.ssh_resolve_responses.push((host.to_owned(), reply));
        proof {
            assert(keyed_view(r.ssh_resolve_responses@) =~= old_e.push((host@, Err(error_msg@))));
            lemma_table_push(old_e, host@, Err(error_msg@));
        }
        r
    }

    /// Register a response for `ssh_agent_list`.
    pub fn with_agent_list(self, result: AgentListResult) -> (r: Self)
        ensures
            r.run_table() == self.run_table(),
            r.interactive_table() == self.interactive_table(),
            r.resolve_table() == self.resolve_table(),
            r.fingerprint_table() == self.fingerprint_table(),
            r.agent_response() == Some(result@),
            r.requests() == self.requests(),
    {
        let mut r = self;
        r.agent_list_response = Some(result);
        r
    }

    /// Register a successful response for `ssh_keygen_fingerprint`.
    pub fn with_fingerprint(self, path: &str, fingerprint: &str) -> (r: Self)
        ensures
            r.run_table() == self.run_table(),
            r.interactive_table() == self.interactive_table(),
            r.resolve_table() == self.resolve_table(),
            r.fingerprint_table() == self.fingerprint_table().insert(path@, Ok(fingerprint@)),
            r.agent_response() == self.agent_response(),
            r.requests() == self.requests(),
    {
        let mut r = self;
        let ghost old_e = keyed_view(r.fingerprint_responses@);
        let reply = Reply::Value(fingerprint.to_owned());
        r.fingerprint_responses.push((path.to_owned(), reply));
        proof {
            assert(keyed_view(r.fingerprint_responses@) =~= old_e.push((path@, Ok(fingerprint@))));
            lemma_table_push(old_e, path@, Ok(fingerprint@));
        }
        r
    }

    /// Register an error response for `ssh_keygen_fingerprint`.
    pub fn with_fingerprint_error(self, path: &str, error_msg: &str) -> (r: Self)
        ensures
            r.run_table() == self.run_table(),
            r.interactive_table() == self.interactive_table(),
            r.resolve_table() == self.resolve_table(),
            r.fingerprint_table() == self.fingerprint_table().insert(path@, Err(error_msg@)),
            r.agent_response() == self.agent_response(),
            r.requests() == self.requests(),
    {
        let mut r = self;
        let ghost old_e = keyed_view(r.fingerprint_responses@);
        let reply = Reply::Failure(error_msg.to_owned());
        r.fingerprint_responses.push((path.to_owned(), reply));
        proof {
            assert(keyed_view(r.fingerprint_responses@) =~= old_e.push((path@, Err(error_msg@))));
            lemma_table_push(old_e, path@, Err(error_msg@));
        }
        r
    }

    /// Build the lookup key from a command and its arguments: `"cmd arg1 arg2 …"`.
    pub fn command_key(cmd: &str, args: &[&str]) -> (r: String)
        ensures
            r@ == command_key_of(cmd@, strs_view(args@)),
    {
        let mut r = cmd.to_owned();
        let mut i: usize = 0;
        while i < args.len()
            invariant
                i <= args@.len(),
                r@ == cmd@ + spaced(strs_view(args@).take(i as int)),
            decreases args@.len() - i,
        {
            let ghost before = r@;
            r.append(" ");
            r.append(args[i]);
            i = i + 1;
            proof {
                let t = strs_view(args@).take(i as int);
                assert(t.drop_last() =~= strs_view(args@).take(i - 1));
                assert(r@ =~= cmd@ + spaced(t));
            }
        }
        assert(strs_view(args@).take(args@.len() as int) =~= strs_view(args@));
        r
    }
}

/// What a mock's `run` answers: the registered output, or the empty one.
pub open spec fn table_answer<V>(table: Map<Seq<char>, V>, key: Seq<char>, default: V) -> V {
    if table.dom().contains(key) {
        table[key]
    } else {
        default
    }
}

/// What an entry of a reply table gives back to a caller.
pub open spec fn table_reply(
    table: Map<Seq<char>, Result<Seq<char>, Seq<char>>>,
    key: Seq<char>,
) -> Result<Seq<char>, ErrorView> {
    if table.dom().contains(key) {
        reply_outcome(Some(table[key]))
    } else {
        reply_outcome(None)
    }
}

/// A registered output is what `run` answers for a command whose key it was
/// registered under, whatever was registered before.
pub proof fn law_registered_output_is_returned(
    before: MockCommandRunner,
    after: MockCommandRunner,
    key: Seq<char>,
    output: OutputView,
    past: Seq<Request>,
    req: Request,
    outcome: Result<OutputView, ErrorView>,
)
    requires
        after.run_table() == before.run_table().insert(key, output),
        command_key_of(req.cmd, req.args) == key,
        after.run_allows(past, req, outcome),
    ensures
        outcome == Ok::<OutputView, ErrorView>(output),
{
}

impl CommandRunner for MockCommandRunner {
    closed spec fn requests(&self) -> Seq<Request> {
        calls_view(self.calls@)
    }

    open spec fn run_allows(
        &self,
        past: Seq<Request>,
        req: Request,
        outcome: Result<OutputView, ErrorView>,
    ) -> bool {
        outcome == Ok::<OutputView, ErrorView>(
            table_answer(self.run_table(), command_key_of(req.cmd, req.args), empty_output()),
        )
    }

    open spec fn resolve_allows(
        &self,
        host: Seq<char>,
        config_args: Seq<Seq<char>>,
        outcome: Result<Seq<char>, ErrorView>,
    ) -> bool {
        outcome == table_reply(self.resolve_table(), host)
    }

    open spec fn agent_list_allows(&self, outcome: Result<AgentListView, ErrorView>) -> bool {
        outcome == Ok::<AgentListView, ErrorView>(
            match self.agent_response() {
                Some(a) => a,
                None => unavailable_agent(),
            },
        )
    }

    open spec fn fingerprint_allows(&self, path: Seq<char>, outcome: Result<Seq<char>, ErrorView>) -> bool {
        outcome == table_reply(self.fingerprint_table(), path)
    }

    fn run(&mut self, cmd: &str, args: &[&str], timeout_secs: u64) -> (r: Result<CommandOutput, FtermError>) {
        let key = Self::command_key(cmd, args);
        let call = RecordedCall { cmd: cmd.to_owned(), args: owned_strings(args), timeout_secs };
        let ghost before = calls_view(self.calls@);
        let ghost cv = call@;
        self.calls.push(call);
        assert(calls_view(self.calls@) =~= before.push(cv));

        match find_latest(&self.run_responses, &key) {
            Some(i) => Ok(self.run_responses[i].1.duplicate()),
            None => Ok(CommandOutput { exit_code: 0, stdout: String::new(), stderr: String::new() }),
        }
    }

    fn run_interactive(&mut self, cmd: &str, args: &[&str]) -> (r: Result<i32, FtermError>)
        ensures
            r == Ok::<i32, FtermError>(
                table_answer(old(self).interactive_table(), command_key_of(cmd@, strs_view(args@)), 0),
            ),
            final(self).requests() == old(self).requests(),
    {
        let key = Self::command_key(cmd, args);
        match find_latest(&self.interactive_responses, &key) {
            Some(i) => Ok(self.interactive_responses[i].1),
            None => Ok(0),
        }
    }

    fn ssh_resolve(&self, host: &str, config_args: &[String]) -> (r: Result<String, FtermError>) {
        let key = host.to_owned();
        answer(&self.ssh_resolve_responses, &key)
    }

    fn ssh_agent_list(&self) -> (r: Result<AgentListResult, FtermError>) {
        match &self.agent_list_response {
            Some(a) => Ok(a.duplicate()),
            None => {
                let r = AgentListResult { available: false, keys: Vec::new() };
                assert(r@ =~= unavailable_agent()) by {
                    assert(strings_view(r.keys@) =~= Seq::<Seq<char>>::empty());
                }
                Ok(r)
            },
        }
    }

    fn ssh_keygen_fingerprint(&self, path: &str) -> (r: Result<String, FtermError>) {
        let key = path.to_owned();
        answer(&self.fingerprint_responses, &key)
    }
}


// ---------------------------------------------------------------------------
// Requests made through `run`
// ---------------------------------------------------------------------------

/// `-F cfg` for each configuration file, in order.
pub open spec fn config_flags(config_args: Seq<Seq<char>>) -> Seq<Seq<char>>
    decreases config_args.len(),
{
    if config_args.len() == 0 {
        Seq::empty()
    } else {
        config_flags(config_args.drop_last()).push("-F"@).push(config_args.last())
    }
}

/// The arguments of an SSH-family command run with configuration files:
/// `-F cfg…` then the user's arguments (as `exec_with_config` passes them).
pub fn args_with_config(args: &[String], config_args: &[String]) -> (r: Vec<String>)
    ensures
        strings_view(r@) == config_flags(strings_view(config_args@)) + strings_view(args@),
{
    let ghost cv = strings_view(config_args@);
    let ghost av = strings_view(args@);
    let mut r: Vec<String> = Vec::new();
    let mut i: usize = 0;
    assert(strings_view(r@) =~= Seq::<Seq<char>>::empty());
    while i < config_args.len()
        invariant
            i <= config_args@.len(),
            cv == strings_view(config_args@),
            strings_view(r@) == config_flags(cv.take(i as int)),
        decreases config_args@.len() - i,
    {
        let ghost before = strings_view(r@);
        let cfg = config_args[i].clone();
        r.push("-F".to_owned());
        r.push(cfg);
        i = i + 1;
        proof {
            let t = cv.take(i as int);
            assert(t.drop_last() =~= cv.take(i - 1));
            assert(strings_view(r@) =~= config_flags(t));
        }
    }
    assert(cv.take(cv.len() as int) =~= cv);
    let ghost head = strings_view(r@);
    let mut j: usize = 0;
    while j < args.len()
        invariant
            j <= args@.len(),
            av == strings_view(args@),
            head == config_flags(cv),
            strings_view(r@) == head + av.take(j as int),
        decreases args@.len() - j,
    {
        let ghost before = strings_view(r@);
        let a = args[j].clone();
        assert(a@ == av[j as int]);
        r.push(a);
        assert(strings_view(r@) =~= before.push(av[j as int]));
        j = j + 1;
        assert(av.take(j as int) =~= av.take(j - 1).push(av[j - 1]));
        assert(strings_view(r@) =~= head + av.take(j as int));
    }
    assert(av.take(av.len() as int) =~= av);
    r
}

/// The error for a command that exited with a non-zero code.
pub open spec fn failed_command(command: Seq<char>, out: OutputView) -> ErrorView {
    ErrorView::CommandFailed { command, exit_code: out.exit_code, stderr: trim(out.stderr) }
}

/// Builds the error for a command that exited with a non-zero code.
pub fn command_failed(command: String, out: &CommandOutput) -> (e: FtermError)
    ensures
        e@ == failed_command(command@, out@),
{
    let stderr_chars = chars_of(out.stderr.as_str());
    let trimmed = trim_chars(stderr_chars.as_slice());
    FtermError::CommandFailed {
        command,
        exit_code: out.exit_code,
        stderr: string_from_chars(trimmed.as_slice()),
    }
}

/// The arguments of `ssh` that resolve `host`: `-F cfg…` then `-G host`.
pub open spec fn resolve_args(host: Seq<char>, config_args: Seq<Seq<char>>) -> Seq<Seq<char>> {
    config_flags(config_args).push("-G"@).push(host)
}

/// What resolving a host through `ssh -G` gives for each outcome of the command.
pub open spec fn resolve_outcome(host: Seq<char>, outcome: Result<OutputView, ErrorView>) -> Result<
    Seq<char>,
    ErrorView,
> {
    match outcome {
        Err(e) => Err(e),
        Ok(out) => if out.exit_code != 0 {
            Err(failed_command("ssh -G "@ + host, out))
        } else {
            Ok(out.stdout)
        },
    }
}

/// Timeout in seconds of the SSH helper commands (`ssh -G`, `ssh-add -l`,
/// `ssh-keygen -lf`): an agent that freezes while forwarding is killed after it,
/// so the terminal stays responsive.
pub const SSH_HELPER_TIMEOUT_SECS: u64 = 1;

/// Appends `-F cfg` for each configuration file to `args`.
pub fn push_config_flags<'a>(args: &mut Vec<&'a str>, config_args: &'a [String])
    ensures
        strs_view(final(args)@) == strs_view(old(args)@) + config_flags(strings_view(config_args@)),
{
    let ghost start = strs_view(args@);
    let mut i: usize = 0;
    while i < config_args.len()
        invariant
            i <= config_args@.len(),
            strs_view(args@) == start + config_flags(strings_view(config_args@).take(i as int)),
        decreases config_args@.len() - i,
    {
        let ghost before = strs_view(args@);
        let cfg: &str = config_args[i].as_str();
        args.push("-F");
        args.push(cfg);
        i = i + 1;
        proof {
            let t = strings_view(config_args@).take(i as int);
            assert(t.drop_last() =~= strings_view(config_args@).take(i - 1));
            assert(strs_view(args@) =~= before.push("-F"@).push(cfg@));
            assert(strs_view(args@) =~= start + config_flags(t));
        }
    }
    assert(strings_view(config_args@).take(config_args@.len() as int) =~= strings_view(
        config_args@,
    ));
}

/// Resolves the SSH configuration for `host` by running `ssh_cmd -F cfg… -G host`
/// (timeout [`SSH_HELPER_TIMEOUT_SECS`]) through `runner`: its stdout when it exits
/// with 0.
pub fn ssh_resolve_via_run<R: CommandRunner>(
    runner: &mut R,
    ssh_cmd: &str,
    host: &str,
    config_args: &[String],
) -> (r: Result<String, FtermError>)
    ensures
        final(runner).requests() == old(runner).requests().push(
            request(ssh_cmd@, resolve_args(host@, strings_view(config_args@)), SSH_HELPER_TIMEOUT_SECS),
        ),
        answers_of(final(runner)) == answers_of(old(runner)),
        exists|o: Result<OutputView, ErrorView>|
            #[trigger] old(runner).run_allows(
                old(runner).requests(),
                request(ssh_cmd@, resolve_args(host@, strings_view(config_args@)), SSH_HELPER_TIMEOUT_SECS),
                o,
            ) && result_view(r) == resolve_outcome(host@, o),
{
    let args = resolve_argv(host, config_args);
    let result = runner.run(ssh_cmd, args.as_slice(), SSH_HELPER_TIMEOUT_SECS);
    proof {
        crate::external::lemma_answers_kept(&*runner, &*old(runner));
    }
    resolve_reply(host, result)
}

/// The arguments of `ssh` that resolve `host`: `-F cfg…` then `-G host`.
pub fn resolve_argv<'a>(host: &'a str, config_args: &'a [String]) -> (r: Vec<&'a str>)
    ensures
        strs_view(r@) == resolve_args(host@, strings_view(config_args@)),
{
    let mut args: Vec<&str> = Vec::new();
    push_config_flags(&mut args, config_args);
    args.push("-G");
    args.push(host);
    assert(strs_view(args@) =~= resolve_args(host@, strings_view(config_args@)));
    args
}

/// What resolving `host` gives for the answer `result` of `ssh -G`.
pub fn resolve_reply(host: &str, result: Result<CommandOutput, FtermError>) -> (r: Result<String, FtermError>)
    ensures
        result_view(r) == resolve_outcome(host@, result_view(result)),
{
    match result {
        Err(e) => Err(e),
        Ok(out) => {
            if out.exit_code != 0 {
                let mut command = "ssh -G ".to_owned();
                command.append(host);
                Err(command_failed(command, &out))
            } else {
                Ok(out.stdout)
            }
        },
    }
}

/// The arguments of `ssh-add` that list the agent's keys.
pub open spec fn agent_list_args() -> Seq<Seq<char>> {
    seq!["-l"@]
}

/// The arguments of `ssh-keygen` that print the fingerprint of the key at `path`.
pub open spec fn fingerprint_args(path: Seq<char>) -> Seq<Seq<char>> {
    seq!["-lf"@, path]
}

/// The non-empty lines among `lines`, in order.
pub open spec fn non_empty(lines: Seq<Seq<char>>) -> Seq<Seq<char>>
    decreases lines.len(),
{
    if lines.len() == 0 {
        Seq::empty()
    } else if lines.last().len() > 0 {
        non_empty(lines.drop_last()).push(lines.last())
    } else {
        non_empty(lines.drop_last())
    }
}

/// What listing agent keys through `ssh-add -l` gives for each outcome of the
/// command: the non-empty output lines when it exits with 0, an unavailable agent
/// otherwise.
pub open spec fn agent_list_outcome(outcome: Result<OutputView, ErrorView>) -> Result<
    AgentListView,
    ErrorView,
> {
    match outcome {
        Err(e) => Err(e),
        Ok(out) => if out.exit_code == 0 {
            Ok(AgentListView { available: true, keys: non_empty(text_lines(out.stdout)) })
        } else {
            Ok(unavailable_agent())
        },
    }
}

/// The non-empty lines of `text`.
pub fn non_empty_lines(text: &str) -> (r: Vec<String>)
    ensures
        strings_view(r@) == non_empty(text_lines(text@)),
{
    let chars = chars_of(text);
    let lines = lines_of(chars.as_slice());
    let ghost lv = crate::text::lines_view(lines@);
    let mut r: Vec<String> = Vec::new();
    let mut i: usize = 0;
    while i < lines.len()
        invariant
            i <= lines@.len(),
            lv == crate::text::lines_view(lines@),
            strings_view(r@) == non_empty(lv.take(i as int)),
        decreases lines@.len() - i,
    {
        let ghost before = strings_view(r@);
        assert(lv.take(i + 1).drop_last() =~= lv.take(i as int));
        assert(lv[i as int] == lines@[i as int]@);
        if lines[i].len() > 0 {
            let line = string_from_chars(lines[i].as_slice());
            r.push(line);
            assert(strings_view(r@) =~= before.push(lines@[i as int]@));
        }
        i = i + 1;
    }
    assert(lv.take(lv.len() as int) =~= lv);
    r
}

/// Lists the keys held by the SSH agent by running `ssh_add_cmd -l` (timeout
/// [`SSH_HELPER_TIMEOUT_SECS`]) through `runner`.
pub fn ssh_agent_list_via_run<R: CommandRunner>(runner: &mut R, ssh_add_cmd: &str) -> (r: Result<
    AgentListResult,
    FtermError,
>)
    ensures
        final(runner).requests() == old(runner).requests().push(
            request(ssh_add_cmd@, agent_list_args(), SSH_HELPER_TIMEOUT_SECS),
        ),
        answers_of(final(runner)) == answers_of(old(runner)),
        exists|o: Result<OutputView, ErrorView>|
            #[trigger] old(runner).run_allows(
                old(runner).requests(),
                request(ssh_add_cmd@, agent_list_args(), SSH_HELPER_TIMEOUT_SECS),
                o,
            ) && result_view(r) == agent_list_outcome(o),
{
    let args: Vec<&str> = vec!["-l"];
    assert(strs_view(args@) =~= agent_list_args());
    let result = runner.run(ssh_add_cmd, args.as_slice(), SSH_HELPER_TIMEOUT_SECS);
    proof {
        crate::external::lemma_answers_kept(&*runner, &*old(runner));
    }
    agent_list_reply(result)
}

/// What listing the agent's keys gives for the answer `result` of `ssh-add -l`.
pub fn agent_list_reply(result: Result<CommandOutput, FtermError>) -> (r: Result<AgentListResult, FtermError>)
    ensures
        result_view(r) == agent_list_outcome(result_view(result)),
{
    match result {
        Err(e) => Err(e),
        Ok(out) => {
            if out.exit_code == 0 {
                let keys = non_empty_lines(out.stdout.as_str());
                Ok(AgentListResult { available: true, keys })
            } else {
                let r = AgentListResult { available: false, keys: Vec::new() };
                assert(r@ =~= unavailable_agent()) by {
                    assert(strings_view(r.keys@) =~= Seq::<Seq<char>>::empty());
                }
                Ok(r)
            }
        },
    }
}

/// What asking `ssh-keygen -lf path` for a fingerprint gives for each outcome of the
/// command: its trimmed stdout when it exits with 0.
pub open spec fn fingerprint_outcome(path: Seq<char>, outcome: Result<OutputView, ErrorView>) -> Result<
    Seq<char>,
    ErrorView,
> {
    match outcome {
        Err(e) => Err(e),
        Ok(out) => if out.exit_code != 0 {
            Err(failed_command("ssh-keygen -lf "@ + path, out))
        } else {
            Ok(trim(out.stdout))
        },
    }
}

/// Obtains the fingerprint of the key at `path` by running `keygen_cmd -lf path`
/// (timeout [`SSH_HELPER_TIMEOUT_SECS`]) through `runner`.
pub fn ssh_keygen_fingerprint_via_run<R: CommandRunner>(
    runner: &mut R,
    keygen_cmd: &str,
    path: &str,
) -> (r: Result<String, FtermError>)
    ensures
        final(runner).requests() == old(runner).requests().push(
            request(keygen_cmd@, fingerprint_args(path@), SSH_HELPER_TIMEOUT_SECS),
        ),
        answers_of(final(runner)) == answers_of(old(runner)),
        exists|o: Result<OutputView, ErrorView>|
            #[trigger] old(runner).run_allows(
                old(runner).requests(),
                request(keygen_cmd@, fingerprint_args(path@), SSH_HELPER_TIMEOUT_SECS),
                o,
            ) && result_view(r) == fingerprint_outcome(path@, o),
{
    let args: Vec<&str> = vec!["-lf", path];
    assert(strs_view(args@) =~= fingerprint_args(path@));
    let result = runner.run(keygen_cmd, args.as_slice(), SSH_HELPER_TIMEOUT_SECS);
    proof {
        crate::external::lemma_answers_kept(&*runner, &*old(runner));
    }
    fingerprint_reply(path, result)
}

/// What asking for the fingerprint of the key at `path` gives for the answer
/// `result` of `ssh-keygen -lf path`.
pub fn fingerprint_reply(path: &str, result: Result<CommandOutput, FtermError>) -> (r: Result<String, FtermError>)
    ensures
        result_view(r) == fingerprint_outcome(path@, result_view(result)),
{
    match result {
        Err(e) => Err(e),
        Ok(out) => {
            if out.exit_code != 0 {
                let mut command = "ssh-keygen -lf ".to_owned();
                command.append(path);
                Err(command_failed(command, &out))
            } else {
                let chars = chars_of(out.stdout.as_str());
                let trimmed = trim_chars(chars.as_slice());
                Ok(string_from_chars(trimmed.as_slice()))
            }
        },
    }
}

// ---------------------------------------------------------------------------
// RealCommandRunner
// ---------------------------------------------------------------------------

/// The operating system's side of running commands, for [`RealCommandRunner`].
/// Nothing is promised of what it answers.
pub trait ProcessSpawner {
    /// Runs `cmd` with `args`, capturing its output (without carriage returns); a
    /// timeout of 0 waits without limit, else the command is killed at the timeout.
    fn spawn_and_wait(&self, cmd: &str, args: &[&str], timeout_secs: u64) -> Result<CommandOutput, FtermError>;

    /// Runs `cmd` with `args` interactively, inheriting the terminal: its exit code.
    fn spawn_interactive(&self, cmd: &str, args: &[&str]) -> Result<i32, FtermError>;

    /// The program to run for the SSH-family command `name`.
    fn ssh_command(&self, name: &str) -> String;
}

/// Production implementation that executes real OS commands through `spawner`,
/// keeping the record of the commands handed to `run`.
pub struct RealCommandRunner<P> {
    /// Where the commands run.
    spawner: P,
    /// The commands handed to `run`, oldest first.
    log: Ghost<Seq<Request>>,
}

impl<P: ProcessSpawner + Copy> RealCommandRunner<P> {
    /// Create a new `RealCommandRunner`, which has run nothing yet.
    pub fn new(spawner: P) -> (r: Self)
        ensures
            r.requests() == Seq::<Request>::empty(),
    {
        RealCommandRunner { spawner, log: Ghost(Seq::empty()) }
    }
}

impl<P: ProcessSpawner + Copy> CommandRunner for RealCommandRunner<P> {
    closed spec fn requests(&self) -> Seq<Request> {
        self.log@
    }

    fn run(&mut self, cmd: &str, args: &[&str], timeout_secs: u64) -> (r: Result<CommandOutput, FtermError>) {
        let r = self.spawner.spawn_and_wait(cmd, args, timeout_secs);
        self.log = Ghost(self.log@.push(request(cmd@, strs_view(args@), timeout_secs)));
        r
    }

    fn run_interactive(&mut self, cmd: &str, args: &[&str]) -> (r: Result<i32, FtermError>) {
        self.spawner.spawn_interactive(cmd, args)
    }

    fn ssh_resolve(&self, host: &str, config_args: &[String]) -> (r: Result<String, FtermError>) {
        let ssh = self.spawner.ssh_command("ssh");
        let args = resolve_argv(host, config_args);
        resolve_reply(host, self.spawner.spawn_and_wait(ssh.as_str(), args.as_slice(), SSH_HELPER_TIMEOUT_SECS))
    }

    fn ssh_agent_list(&self) -> (r: Result<AgentListResult, FtermError>) {
        let ssh_add = self.spawner.ssh_command("ssh-add");
        let args: Vec<&str> = vec!["-l"];
        agent_list_reply(self.spawner.spawn_and_wait(ssh_add.as_str(), args.as_slice(), SSH_HELPER_TIMEOUT_SECS))
    }

    fn ssh_keygen_fingerprint(&self, path: &str) -> (r: Result<String, FtermError>) {
        let keygen = self.spawner.ssh_command("ssh-keygen");
        let args: Vec<&str> = vec!["-lf", path];
        fingerprint_reply(
            path,
            self.spawner.spawn_and_wait(keygen.as_str(), args.as_slice(), SSH_HELPER_TIMEOUT_SECS),
        )
    }
}

// ---------------------------------------------------------------------------
// Waiting for a command with a timeout
// ---------------------------------------------------------------------------

/// What to do next while waiting for a command that runs with a timeout.
#[derive(Debug, Clone, Copy, PartialEq, Eq, Structural)]
pub enum PollStep {
    /// The command has exited: collect its output, with this exit code.
    Collect { exit_code: i32 },
    /// The timeout has passed: kill the command and report the timeout.
    KillForTimeout,
    /// Wait a little and look again.
    WaitMore,
}

/// The exit code reported for a process status: its code, or -1 when a signal
/// ended the process.
pub open spec fn exit_code_of(code: Option<i32>) -> i32 {
    match code {
        Some(c) => c,
        None => -1i32,
    }
}

/// Decides the next step of waiting for a command: `status` is what polling the
/// process gave (`None` while it runs; else its exit code, `None` when a signal
/// ended it, which counts as -1), `elapsed_ms` the time since it started.
pub fn poll_step(status: Option<Option<i32>>, elapsed_ms: u64, timeout_secs: u64) -> (s: PollStep)
    ensures
        status matches Some(c) ==> s == (PollStep::Collect { exit_code: exit_code_of(c) }),
        status is None && elapsed_ms >= timeout_secs * 1000 ==> (s is KillForTimeout),
        status is None && elapsed_ms < timeout_secs * 1000 ==> (s is WaitMore),
{
    match status {
        Some(Some(code)) => PollStep::Collect { exit_code: code },
        Some(None) => PollStep::Collect { exit_code: -1 },
        None => {
            let secs = elapsed_ms / 1000;
            assert(secs >= timeout_secs <==> elapsed_ms >= timeout_secs * 1000) by (nonlinear_arith)
                requires
                    secs == elapsed_ms / 1000,
            ;
            if secs >= timeout_secs {
                PollStep::KillForTimeout
            } else {
                PollStep::WaitMore
            }
        },
    }
}

/// The error for a command killed at its timeout.
pub open spec fn timeout_text(cmd: Seq<char>, timeout_secs: u64) -> Seq<char> {
    "command timed out after "@ + decimal(timeout_secs as nat) + "s: "@ + cmd
}

/// The error reported when `cmd` ran past its timeout of `timeout_secs` seconds.
pub fn timeout_error(cmd: &str, timeout_secs: u64) -> (e: FtermError)
    ensures
        e@ == ErrorView::Runner(timeout_text(cmd@, timeout_secs)),
{
    let mut message = "command timed out after ".to_owned();
    crate::text::push_decimal(&mut message, timeout_secs);
    message.append("s: ");
    message.append(cmd);
    FtermError::Runner(message)
}

/// `s` without its carriage returns.
pub open spec fn without_cr(s: Seq<char>) -> Seq<char> {
    s.filter(|c: char| c != '\r')
}

/// Removes every `'\r'` from captured output (for Windows line endings).
pub fn remove_carriage_returns(s: &str) -> (r: String)
    ensures
        r@ == without_cr(s@),
{
    let chars = chars_of(s);
    let mut kept: Vec<char> = Vec::new();
    let mut i: usize = 0;
    while i < chars.len()
        invariant
            i <= chars@.len(),
            chars@ == s@,
            kept@ == without_cr(chars@.take(i as int)),
        decreases chars@.len() - i,
    {
        proof {
            let p = chars@.take(i as int);
            assert(chars@.take(i + 1) =~= p.push(chars@[i as int]));
            p.lemma_filter_push(chars@[i as int], |c: char| c != '\r');
        }
        if chars[i] != '\r' {
            kept.push(chars[i]);
        }
        i = i + 1;
    }
    assert(chars@.take(chars@.len() as int) =~= chars@);
    string_from_chars(kept.as_slice())
}

} // verus!
