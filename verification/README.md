# fterm

Verified core of an SSH/SCP session helper: it extracts remote hosts from SCP
arguments, reads `ssh -G` output, orchestrates SSH configuration checks and
summarises them, keeps a per-window tmux connection count and the pane state
around a transfer, names and orders session logs, previews and compresses their
contents, and stops session logging. Every external command goes through the
`CommandRunner` trait, which keeps the sequence of commands handed to it: the
real runner hands them to a `ProcessSpawner`, the mock answers from registered
responses.

Layout:

- `src/` — the library, verified with Verus (`text`, `error`, `external`,
  `tmux::{window, pane}`, `util::{scp_args, files, log_content, clock}`,
  `validate::orchestrator`, `logging::stop`, `command::{scp, subcommand}`).
- `tests/` — tests of the library.
- `app/` — the process and file system side: the spawner that starts and waits
  for real processes, reading, writing and walking log files, and the file steps
  of finishing a session log.
