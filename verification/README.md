# atc

The verified core of `atc`, a command line that dispatches coding agents into
worktrees, follows them and wraps them up, and the program around it.

- `src/` is the library. It holds the rules and computes on plain values: names
  and identifiers, environments, prompts, queues, tables, filters, and the order
  of the steps of each command. Everything in it is verified with Verus.
- `app/` is the program. It reads options, files and the answers of `git`, `gh`,
  `tmux`, `meta` and `git-kb`, and performs what the library decides.
- `tests/` runs the library.

## How the library is built

Text is modelled as `Seq<char>`, paths are text, and times are seconds and
nanoseconds. Where a command alternates between work outside and decisions, the
decisions are a machine: a value with a `step` from the last event to the next
action, whose contract equates it with a spec function. The laws of the library
are public proof functions over the same spec functions, for instance:

- `pipeline::flow`: a dry run touches nothing, an agent is started at most once,
  and a failure removes exactly the worktree that the dispatch made.
- `pipeline::environment`: no source of environment entries can override those
  that confine an agent.
- `daemon`: a round dispatches no more than there are free slots, over all queues.
- `sessions::snapshot`: what is listed does not depend on the order of reading.
- `sessions::app`: what destroys something is asked for twice.
- `init::agents`: content that a user made is never touched.

What `serde_json`, `regex`, `chrono`, `humantime`, `comfy-table`, `owo-colors` and
`shlex` compute is trusted. Each such call stands in a small function of its own
whose comment says what is claimed of it.
