# Maid

Maid is a small, review-only bot that runs Codex on GitHub events. It watches
for opened pull requests and for comments that mention the bot, checks that the
request comes from a trusted account, prepares a fresh repository, runs Codex in
a disposable container and posts its answer as a comment.

The decisions are a library that is verified with Verus; everything that touches
the outside is a thin program around it.

## Layout

- `src/` holds the library. Work that alternates with the outside world is written
  as machines: `action` says what is due, `on_reply` takes what came of it. Their
  contracts are stated over a spec function `after`, and the proof functions named
  `law_…` state what holds of every run.
  - `text`, `numeral`, `path`, `string_set`: texts, numbers, paths and sets of texts.
  - `domain`, `mention_thread`, `auto_review`, `maid`: who may ask for work, what a
    comment asks for, and the tasks that come of it.
  - `effect`, `assessment`, `task_run`, `poll`, `workload`: the machines that look at
    a notification or pull request, see a task through, and run one poll beside the
    tasks at work.
  - `comment`: the text of a published comment.
  - `task_limit`, `handled_marker`, `observed_notification`: the ledgers.
  - `github`, `github_api`: pacing, retries, addresses and answers of GitHub.
  - `codex`: the container, its output and its end.
  - `git`, `worktree`, `repo_cache`: git commands, their credentials and checkouts.
  - `config`, `daemon_lock`, `polling_metrics`: the daemon's surroundings.
- `app/` holds the program: processes, files, the network, and the parsing of JSON
  and TOML into the library's types.
- `tests/` runs the library.
